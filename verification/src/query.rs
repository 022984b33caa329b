//! A whole ordering: the directives of an `order_by` clause, in the order in
//! which they were written.

use crate::chars::{trim, trim_range, Text};
use crate::error::{outcome, ParseQueryError};
use crate::field::is_field_name;
use crate::order::{classify, render_order, Order, OrderView};
use crate::pieces::{join, next_piece, pieces};
use vstd::prelude::*;
use vstd::string::StringExecFns;

verus! {

/// The tokens of a clause: the non-empty pieces between the spaces of what
/// is left of the clause without the white space at its two ends.
pub open spec fn tokens(clause: Seq<char>) -> Seq<Seq<char>> {
    pieces(trim(clause), ' ')
}

/// The token of a clause at place `k`, if it has that many.
pub open spec fn token(clause: Seq<char>, k: int) -> Option<Seq<char>> {
    if 0 <= k < tokens(clause).len() {
        Some(tokens(clause)[k])
    } else {
        None
    }
}

/// The directive that a clause stands for, or the message that refuses it.
/// The first two tokens decide; further ones are not looked at.
pub open spec fn parse_clause(clause: Seq<char>) -> Result<OrderView, Seq<char>> {
    classify(token(clause, 0), token(clause, 1))
}

/// The directives that the clauses stand for, in their order, or the message
/// for the first clause that is refused.
pub open spec fn parse_clauses(clauses: Seq<Seq<char>>) -> Result<Seq<OrderView>, Seq<char>>
    decreases clauses.len(),
{
    if clauses.len() == 0 {
        Ok(Seq::empty())
    } else {
        match parse_clause(clauses[0]) {
            Err(message) => Err(message),
            Ok(order) => match parse_clauses(clauses.skip(1)) {
                Err(message) => Err(message),
                Ok(orders) => Ok(seq![order] + orders),
            },
        }
    }
}

/// What a query stands for: the directives of its clauses, which are the
/// non-empty pieces between its commas.
pub open spec fn parse_order_by(query: Seq<char>) -> Result<Seq<OrderView>, Seq<char>> {
    parse_clauses(pieces(query, ','))
}

/// The canonical texts of the directives, in their order.
pub open spec fn render_each(orders: Seq<OrderView>) -> Seq<Seq<char>> {
    Seq::new(orders.len(), |i: int| render_order(orders[i]))
}

/// The canonical texts of the directives with commas between them.
pub open spec fn render_list(orders: Seq<OrderView>) -> Seq<char> {
    join(render_each(orders), ',')
}

/// The canonical text of an ordering: nothing at all where the list of its
/// directives is empty, and the list behind `order_by ` otherwise.
pub open spec fn render(orders: Seq<OrderView>) -> Seq<char> {
    if render_list(orders).len() == 0 {
        Seq::empty()
    } else {
        "order_by "@ + render_list(orders)
    }
}

/// Whether every directive names its field by a field name.
pub open spec fn well_named(orders: Seq<OrderView>) -> bool {
    forall|i: int| 0 <= i < orders.len() ==> is_field_name((#[trigger] orders[i]).field())
}

/// The views of the directives, in their order.
pub open spec fn views(orders: Seq<Order>) -> Seq<OrderView> {
    Seq::new(orders.len(), |i: int| orders[i]@)
}

/// An ordering: directives in the order of their priority. It may be empty.
/// Every directive in it names its field by a field name.
#[derive(Debug)]
pub struct OrderBy(Vec<Order>);

impl View for OrderBy {
    type V = Seq<OrderView>;

    /// The directives, first priority first.
    closed spec fn view(&self) -> Seq<OrderView> {
        views(self.0@)
    }
}

impl Clone for OrderBy {
    fn clone(&self) -> (copy: OrderBy)
        ensures
            copy@ == self@,
    {
        proof {
            use_type_invariant(self);
        }
        let mut orders: Vec<Order> = Vec::new();
        let mut i: usize = 0;
        while i < self.0.len()
            invariant
                i <= self.0@.len(),
                views(orders@) == views(self.0@).take(i as int),
            decreases self.0@.len() - i,
        {
            let order = self.0[i].clone();
            orders.push(order);
            assert(views(self.0@).take(i + 1) == views(self.0@).take(i as int).push(order@));
            i += 1;
        }
        OrderBy(orders)
    }
}

/// `done`, followed by what `rest` gives, unless `rest` is a refusal.
spec fn followed_by(done: Seq<OrderView>, rest: Result<Seq<OrderView>, Seq<char>>) -> Result<
    Seq<OrderView>,
    Seq<char>,
> {
    match rest {
        Ok(orders) => Ok(done + orders),
        Err(message) => Err(message),
    }
}

/// Parses the part of `query` from `lo` up to `hi` as one clause.
fn parse_clause_at(query: &Text, lo: usize, hi: usize) -> (r: Result<Order, ParseQueryError>)
    requires
        lo <= hi <= query@.len(),
    ensures
        outcome(r) == parse_clause(query@.subrange(lo as int, hi as int)),
{
    let chars = query.chars();
    let (from, to) = trim_range(chars, lo, hi);
    match next_piece(chars, from, to, ' ') {
        None => Order::from_tokens(None, None),
        Some((start, end)) => {
            let field = query.slice(start, end);
            match next_piece(chars, end, to, ' ') {
                None => Order::from_tokens(Some(field), None),
                Some((start, end)) => {
                    let direction = query.slice(start, end);
                    Order::from_tokens(Some(field), Some(direction))
                },
            }
        },
    }
}

impl OrderBy {
    #[verifier::type_invariant]
    spec fn valid(self) -> bool {
        well_named(views(self.0@))
    }

    /// Parses a query: clauses with commas between them, each a field name
    /// that a direction may follow. Gives the directives in the order of the
    /// clauses, or the error for the first clause that is refused.
    pub fn new(query: &str) -> (r: Result<OrderBy, ParseQueryError>)
        ensures
            outcome(r) == parse_order_by(query@),
    {
        let text = Text::new(query);
        let chars = text.chars();
        let n = chars.len();
        let mut orders: Vec<Order> = Vec::new();
        let mut pos: usize = 0;
        assert(chars@.subrange(0, n as int) == query@);
        loop
            invariant
                chars@ == query@,
                text@ == query@,
                pos <= n == chars@.len(),
                well_named(views(orders@)),
                parse_order_by(query@) == followed_by(
                    views(orders@),
                    parse_clauses(pieces(chars@.subrange(pos as int, n as int), ',')),
                ),
            decreases n - pos,
        {
            let ghost left = pieces(chars@.subrange(pos as int, n as int), ',');
            match next_piece(chars, pos, n, ',') {
                None => {
                    return Ok(OrderBy(orders));
                },
                Some((start, end)) => {
                    assert(left.skip(1) == pieces(chars@.subrange(end as int, n as int), ','));
                    let ghost before = views(orders@);
                    match parse_clause_at(&text, start, end) {
                        Err(e) => {
                            return Err(e);
                        },
                        Ok(order) => {
                            orders.push(order);
                            pos = end;
                            proof {
                                assert(views(orders@) == before + seq![order@]);
                                let rest = parse_clauses(
                                    pieces(chars@.subrange(end as int, n as int), ','),
                                );
                                if rest is Ok {
                                    assert(before + (seq![order@] + rest->Ok_0) == (before + seq![
                                        order@,
                                    ]) + rest->Ok_0);
                                }
                            }
                        },
                    }
                },
            }
        }
    }

    /// The number of directives.
    pub fn len(&self) -> (n: usize)
        ensures
            n == self@.len(),
    {
        self.0.len()
    }

    /// The directives, first priority first.
    pub fn as_slice(&self) -> (orders: &[Order])
        ensures
            views(orders@) == self@,
            well_named(self@),
    {
        proof {
            use_type_invariant(self);
        }
        self.0.as_slice()
    }

    /// Tells whether there is no directive.
    pub fn is_empty(&self) -> (b: bool)
        ensures
            b == (self@.len() == 0),
    {
        self.0.len() == 0
    }

    /// The canonical text of the ordering.
    pub fn to_string(&self) -> (text: String)
        ensures
            text@ == render(self@),
    {
        let mut list = String::new();
        let n = self.0.len();
        let mut i: usize = 0;
        while i < n
            invariant
                i <= n == self.0@.len(),
                list@ == render_list(self@.take(i as int)),
            decreases n - i,
        {
            let ghost done = render_each(self@.take(i as int));
            let ghost next = render_each(self@.take(i + 1));
            assert(next.drop_last() == done);
            if i > 0 {
                list.append(",");
                proof {
                    reveal_strlit(",");
                }
            }
            let item = self.0[i].to_string();
            list.append(item.as_str());
            i += 1;
        }
        assert(self@.take(n as int) == self@);
        if list.as_str().is_empty() {
            list
        } else {
            String::from_str("order_by ").concat(list.as_str())
        }
    }
}

} // verus!
