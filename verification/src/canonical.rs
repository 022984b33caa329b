//! The canonical text of an ordering, and the proof that it stands for the
//! ordering that it was written from.

use crate::field::is_field_name;
use crate::grammar::{lemma_clause_parses, lemma_clauses_parse, lemma_direction_chars};
use crate::order::{render_order, OrderView};
use crate::pieces::{free_of, lemma_pieces_join, lemma_pieces_whole, pieces};
use crate::query::{
    parse_clause, parse_clauses, parse_order_by, render, render_each, render_list, well_named,
};
use vstd::prelude::*;

verus! {

/// `text` without `order_by ` at its start, or `text` itself where it does
/// not start so.
pub open spec fn without_prefix(text: Seq<char>) -> Seq<char> {
    if "order_by "@.is_prefix_of(text) {
        text.skip("order_by "@.len() as int)
    } else {
        text
    }
}

/// The directive at each place is the one that the clause at that place
/// stands for.
pub proof fn lemma_parsed_in_place(clauses: Seq<Seq<char>>)
    requires
        parse_clauses(clauses) is Ok,
    ensures
        parse_clauses(clauses)->Ok_0.len() == clauses.len(),
        forall|i: int|
            0 <= i < clauses.len() ==> parse_clause(#[trigger] clauses[i]) == Ok::<
                OrderView,
                Seq<char>,
            >(parse_clauses(clauses)->Ok_0[i]),
    decreases clauses.len(),
{
    if clauses.len() > 0 {
        lemma_parsed_in_place(clauses.skip(1));
        let all = parse_clauses(clauses)->Ok_0;
        assert forall|i: int| 0 <= i < clauses.len() implies parse_clause(#[trigger] clauses[i])
            == Ok::<OrderView, Seq<char>>(all[i]) by {
            if i > 0 {
                assert(clauses[i] == clauses.skip(1)[i - 1]);
            }
        }
    }
}

/// The directives that clauses stand for name their fields by field names.
pub proof fn lemma_parsed_well_named(clauses: Seq<Seq<char>>)
    requires
        parse_clauses(clauses) is Ok,
    ensures
        well_named(parse_clauses(clauses)->Ok_0),
{
    lemma_parsed_in_place(clauses);
    let orders = parse_clauses(clauses)->Ok_0;
    assert forall|i: int| 0 <= i < orders.len() implies is_field_name(
        (#[trigger] orders[i]).field(),
    ) by {
        assert(parse_clause(clauses[i]) == Ok::<OrderView, Seq<char>>(orders[i]));
    }
}

/// The canonical text of a directive is a clause that stands for that
/// directive. It is not empty and holds no comma.
pub proof fn lemma_rendered_order_parses(order: OrderView)
    requires
        is_field_name(order.field()),
    ensures
        parse_clause(render_order(order)) == Ok::<OrderView, Seq<char>>(order),
        render_order(order).len() > 0,
        free_of(render_order(order), ','),
{
    let nothing = Seq::<char>::empty();
    let direction = match order {
        OrderView::Asc(_) => "asc"@,
        OrderView::Desc(_) => "desc"@,
    };
    lemma_direction_chars(direction);
    assert(render_order(order) == nothing + order.field() + seq![' '] + direction + nothing) by {
        reveal_strlit(" asc");
        reveal_strlit(" desc");
        reveal_strlit("asc");
        reveal_strlit("desc");
    }
    lemma_clause_parses(nothing, order.field(), seq![' '], direction, nothing);
}

/// The canonical list of directives stands for these directives, where
/// they name their fields by field names.
pub proof fn lemma_rendered_list_parses(orders: Seq<OrderView>)
    requires
        well_named(orders),
    ensures
        parse_order_by(render_list(orders)) == Ok::<Seq<OrderView>, Seq<char>>(orders),
        render_list(orders).len() == 0 <==> orders.len() == 0,
{
    let clauses = render_each(orders);
    assert forall|i: int| 0 <= i < clauses.len() implies {
        &&& parse_clause(#[trigger] clauses[i]) == Ok::<OrderView, Seq<char>>(orders[i])
        &&& clauses[i].len() > 0
        &&& free_of(clauses[i], ',')
    } by {
        lemma_rendered_order_parses(orders[i]);
    }
    lemma_pieces_join(clauses, ',');
    lemma_clauses_parse(clauses, orders);
    if orders.len() > 0 && render_list(orders).len() == 0 {
        lemma_pieces_whole(render_list(orders), ',');
    }
}

/// Clauses keep their order: the directive at each place is the one that the
/// non-empty piece of the query at that place stands for, and the canonical
/// text shows the directives at the same places.
pub proof fn theorem_order_preserved(query: Seq<char>)
    requires
        parse_order_by(query) is Ok,
    ensures
        ({
            let clauses = pieces(query, ',');
            let orders = parse_order_by(query)->Ok_0;
            &&& orders.len() == clauses.len()
            &&& forall|i: int|
                0 <= i < clauses.len() ==> parse_clause(#[trigger] clauses[i]) == Ok::<
                    OrderView,
                    Seq<char>,
                >(orders[i])
            &&& pieces(render_list(orders), ',') == render_each(orders)
        }),
{
    let orders = parse_order_by(query)->Ok_0;
    lemma_parsed_in_place(pieces(query, ','));
    lemma_parsed_well_named(pieces(query, ','));
    let texts = render_each(orders);
    assert forall|i: int| 0 <= i < texts.len() implies (#[trigger] texts[i]).len() > 0 && free_of(
        texts[i],
        ',',
    ) by {
        lemma_rendered_order_parses(orders[i]);
    }
    lemma_pieces_join(texts, ',');
}

/// The canonical text is a fixed point: where a query is accepted, the
/// canonical text of its ordering, taken without `order_by `, is accepted
/// too, stands for the same ordering, and so has the same canonical text.
pub proof fn theorem_canonical_fixed_point(query: Seq<char>)
    requires
        parse_order_by(query) is Ok,
    ensures
        ({
            let text = render(parse_order_by(query)->Ok_0);
            let again = parse_order_by(without_prefix(text));
            &&& again == parse_order_by(query)
            &&& render(again->Ok_0) == text
        }),
{
    let orders = parse_order_by(query)->Ok_0;
    lemma_parsed_well_named(pieces(query, ','));
    lemma_rendered_list_parses(orders);
    let list = render_list(orders);
    let text = render(orders);
    reveal_strlit("order_by ");
    if list.len() > 0 {
        assert(text.skip("order_by "@.len() as int) == list);
    }
}

} // verus!
