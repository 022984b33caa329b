//! The grammar of queries, and the proof that the parser accepts every
//! string of it.
//!
//! ```text
//! query     := "" | clause ("," clause)*
//! clause    := ws* field ws* (ws+ direction)? ws*
//! field     := [_a-z][_a-z0-9]* ("." [_a-z][_a-z0-9]*)*
//! direction := "asc" | "ASC" | "desc" | "DESC"
//! ws        := " "
//! ```

use crate::chars::lemma_trim_padded;
use crate::field::{is_field_name, lemma_field_name_chars};
use crate::order::{is_ascending, is_descending, OrderView};
use crate::pieces::{
    all_of, free_of, join, lemma_pieces_concat, lemma_pieces_join, lemma_pieces_skip_all,
    lemma_pieces_whole,
};
use crate::query::{parse_clause, parse_clauses, parse_order_by};
use vstd::prelude::*;

verus! {

/// Whether `s` is a direction.
pub open spec fn is_direction(s: Seq<char>) -> bool {
    is_ascending(s) || is_descending(s)
}

/// Whether the five parts make a clause: spaces, a field, spaces, and then
/// either nothing or a direction that at least one space parts from the
/// field, and spaces again.
pub open spec fn clause_parts(
    lead: Seq<char>,
    field: Seq<char>,
    gap: Seq<char>,
    direction: Seq<char>,
    trail: Seq<char>,
) -> bool {
    &&& all_of(lead, ' ')
    &&& is_field_name(field)
    &&& all_of(gap, ' ')
    &&& direction.len() == 0 || (gap.len() > 0 && is_direction(direction))
    &&& all_of(trail, ' ')
}

/// Whether `s` is a clause of the grammar.
pub open spec fn is_clause(s: Seq<char>) -> bool {
    exists|
        lead: Seq<char>,
        field: Seq<char>,
        gap: Seq<char>,
        direction: Seq<char>,
        trail: Seq<char>,
    |
        #[trigger] clause_parts(lead, field, gap, direction, trail) && s == lead + field + gap
            + direction + trail
}

/// Whether `s` is a query of the grammar: empty, or clauses with a comma
/// between neighbours.
pub open spec fn is_query(s: Seq<char>) -> bool {
    s.len() == 0 || exists|clauses: Seq<Seq<char>>|
        {
            &&& clauses.len() > 0
            &&& forall|i: int| 0 <= i < clauses.len() ==> is_clause(#[trigger] clauses[i])
            &&& s == join(clauses, ',')
        }
}

/// The directive that a clause with this field and this direction stands
/// for.
pub open spec fn directive(field: Seq<char>, direction: Seq<char>) -> OrderView {
    if is_descending(direction) {
        OrderView::Desc(field)
    } else {
        OrderView::Asc(field)
    }
}

/// A direction is not empty, holds letters only and differs from the other
/// direction.
pub proof fn lemma_direction_chars(s: Seq<char>)
    requires
        is_direction(s),
    ensures
        s.len() > 0,
        forall|j: int| 0 <= j < s.len() ==> 'A' <= #[trigger] s[j] <= 'Z' || 'a' <= s[j] <= 'z',
        !(is_ascending(s) && is_descending(s)),
{
    reveal_strlit("asc");
    reveal_strlit("ASC");
    reveal_strlit("desc");
    reveal_strlit("DESC");
    assert("desc"@.len() == 4 && "DESC"@.len() == 4);
}

/// A clause of the grammar stands for the directive of its field and its
/// direction. It is not empty and holds no comma.
pub proof fn lemma_clause_parses(
    lead: Seq<char>,
    field: Seq<char>,
    gap: Seq<char>,
    direction: Seq<char>,
    trail: Seq<char>,
)
    requires
        clause_parts(lead, field, gap, direction, trail),
    ensures
        parse_clause(lead + field + gap + direction + trail) == Ok::<OrderView, Seq<char>>(
            directive(field, direction),
        ),
        (lead + field + gap + direction + trail).len() > 0,
        free_of(lead + field + gap + direction + trail, ','),
{
    let clause = lead + field + gap + direction + trail;
    lemma_field_name_chars(field);
    lemma_pieces_whole(field, ' ');
    if direction.len() == 0 {
        assert(clause == lead + field + (gap + trail));
        lemma_trim_padded(lead, field, gap + trail);
        reveal_strlit("desc");
        reveal_strlit("DESC");
    } else {
        lemma_direction_chars(direction);
        let core = field + gap + direction;
        assert(clause == lead + core + trail);
        lemma_trim_padded(lead, core, trail);
        lemma_pieces_whole(direction, ' ');
        assert(core == field + seq![' '] + (gap.skip(1) + direction));
        lemma_pieces_concat(field, gap.skip(1) + direction, ' ');
        lemma_pieces_skip_all(gap.skip(1), direction, ' ');
    }
}

/// Clauses that each stand for a directive stand for these directives
/// together.
pub proof fn lemma_clauses_parse(clauses: Seq<Seq<char>>, orders: Seq<OrderView>)
    requires
        clauses.len() == orders.len(),
        forall|i: int|
            0 <= i < clauses.len() ==> parse_clause(#[trigger] clauses[i]) == Ok::<
                OrderView,
                Seq<char>,
            >(orders[i]),
    ensures
        parse_clauses(clauses) == Ok::<Seq<OrderView>, Seq<char>>(orders),
    decreases clauses.len(),
{
    if clauses.len() > 0 {
        lemma_clauses_parse(clauses.skip(1), orders.skip(1));
        assert(seq![orders[0]] + orders.skip(1) == orders);
    } else {
        assert(orders == Seq::<OrderView>::empty());
    }
}

/// Every query of the grammar is accepted.
pub proof fn theorem_grammar_accepted(query: Seq<char>)
    requires
        is_query(query),
    ensures
        parse_order_by(query) is Ok,
{
    if query.len() == 0 {
        lemma_pieces_whole(query, ',');
    } else {
        let clauses = choose|clauses: Seq<Seq<char>>|
            {
                &&& clauses.len() > 0
                &&& forall|i: int| 0 <= i < clauses.len() ==> is_clause(#[trigger] clauses[i])
                &&& query == join(clauses, ',')
            };
        let orders = Seq::new(clauses.len(), |i: int| parse_clause(clauses[i])->Ok_0);
        assert forall|i: int| 0 <= i < clauses.len() implies {
            &&& parse_clause(#[trigger] clauses[i]) == Ok::<OrderView, Seq<char>>(orders[i])
            &&& clauses[i].len() > 0
            &&& free_of(clauses[i], ',')
        } by {
            let (lead, field, gap, direction, trail) = choose|
                lead: Seq<char>,
                field: Seq<char>,
                gap: Seq<char>,
                direction: Seq<char>,
                trail: Seq<char>,
            |
                #[trigger] clause_parts(lead, field, gap, direction, trail) && clauses[i] == lead
                    + field + gap + direction + trail;
            lemma_clause_parses(lead, field, gap, direction, trail);
        }
        lemma_pieces_join(clauses, ',');
        lemma_clauses_parse(clauses, orders);
    }
}

} // verus!
