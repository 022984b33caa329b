//! One directive of an ordering: a field and the direction to sort it in.

use crate::chars::same_text;
use crate::error::{clause_error, outcome, token_view, ParseQueryError};
use crate::field::{parse_field, Field};
use vstd::prelude::*;
use vstd::string::StringExecFns;

verus! {

/// A field with the direction to sort it in.
#[derive(Debug)]
pub enum Order {
    /// Smallest first.
    Asc(Field),
    /// Largest first.
    Desc(Field),
}

/// An `Order` as contracts see it: the direction, with the field's name.
pub enum OrderView {
    /// Ascending, by the field of this name.
    Asc(Seq<char>),
    /// Descending, by the field of this name.
    Desc(Seq<char>),
}

impl View for Order {
    type V = OrderView;

    open spec fn view(&self) -> OrderView {
        match self {
            Order::Asc(field) => OrderView::Asc(field@),
            Order::Desc(field) => OrderView::Desc(field@),
        }
    }
}

impl Clone for Order {
    fn clone(&self) -> (copy: Order)
        ensures
            copy@ == self@,
    {
        match self {
            Order::Asc(field) => Order::Asc(field.clone()),
            Order::Desc(field) => Order::Desc(field.clone()),
        }
    }
}

impl OrderView {
    /// The field's name.
    pub open spec fn field(self) -> Seq<char> {
        match self {
            OrderView::Asc(name) => name,
            OrderView::Desc(name) => name,
        }
    }
}

/// Whether `token` asks for the ascending direction.
pub open spec fn is_ascending(token: Seq<char>) -> bool {
    token == "asc"@ || token == "ASC"@
}

/// Whether `token` asks for the descending direction.
pub open spec fn is_descending(token: Seq<char>) -> bool {
    token == "desc"@ || token == "DESC"@
}

/// What the first two tokens of a clause stand for. A field alone, or with an
/// ascending direction, is ascending; with a descending direction it is
/// descending; in both cases the field has to be a field name. Every other
/// pair is refused for its shape, whatever the field is.
pub open spec fn classify(field: Option<Seq<char>>, direction: Option<Seq<char>>) -> Result<
    OrderView,
    Seq<char>,
> {
    if field is Some && (direction is None || is_ascending(direction->0)) {
        match parse_field(field->0) {
            Ok(name) => Ok(OrderView::Asc(name)),
            Err(message) => Err(message),
        }
    } else if field is Some && direction is Some && is_descending(direction->0) {
        match parse_field(field->0) {
            Ok(name) => Ok(OrderView::Desc(name)),
            Err(message) => Err(message),
        }
    } else {
        Err(clause_error(field, direction))
    }
}

/// The canonical text of a directive: the field, a space and the direction
/// in lower case.
pub open spec fn render_order(order: OrderView) -> Seq<char> {
    match order {
        OrderView::Asc(name) => name + " asc"@,
        OrderView::Desc(name) => name + " desc"@,
    }
}

impl Order {
    /// Makes the directive that the first two tokens of a clause stand for,
    /// or says why they stand for none.
    pub fn from_tokens(field: Option<&str>, direction: Option<&str>) -> (r: Result<
        Order,
        ParseQueryError,
    >)
        ensures
            outcome(r) == classify(token_view(field), token_view(direction)),
    {
        let descending = match direction {
            None => Some(false),
            Some(word) => {
                if same_text(word, "asc") || same_text(word, "ASC") {
                    Some(false)
                } else if same_text(word, "desc") || same_text(word, "DESC") {
                    Some(true)
                } else {
                    None
                }
            },
        };
        match (field, descending) {
            (Some(name), Some(false)) => match Field::new(name) {
                Ok(field) => Ok(Order::Asc(field)),
                Err(e) => Err(e),
            },
            (Some(name), Some(true)) => match Field::new(name) {
                Ok(field) => Ok(Order::Desc(field)),
                Err(e) => Err(e),
            },
            _ => Err(ParseQueryError::invalid_clause(field, direction)),
        }
    }

    /// The canonical text of the directive.
    pub fn to_string(&self) -> (text: String)
        ensures
            text@ == render_order(self@),
    {
        match self {
            Order::Asc(field) => field.to_string().concat(" asc"),
            Order::Desc(field) => field.to_string().concat(" desc"),
        }
    }
}

} // verus!
