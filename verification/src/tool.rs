//! The tool-calling vocabulary: calls requested by the model and the
//! results the caller feeds back.

use vstd::prelude::*;

verus! {

/// Opaque identifier the backend assigns to a tool call; a tool result
/// must answer under the same identifier.
#[derive(Debug)]
pub struct Id(String);

impl View for Id {
    type V = Seq<char>;

    closed spec fn view(&self) -> Seq<char> {
        self.0@
    }
}

impl Id {
    pub fn new(id: String) -> (r: Self)
        ensures
            r@ == id@,
    {
        Id(id)
    }

    pub fn as_str(&self) -> (s: &str)
        ensures
            s@ == self@,
    {
        self.0.as_str()
    }
}

impl Clone for Id {
    fn clone(&self) -> (r: Self)
        ensures
            r@ == self@,
    {
        Id(self.0.clone())
    }
}

/// A request from the model to invoke an externally-defined function.
/// `arguments` accumulates as raw text fragments and is only complete
/// JSON once the call has finished streaming.
#[derive(Debug)]
pub enum Call {
    Function { id: Id, name: String, arguments: String },
}

#[verifier::ext_equal]
pub enum CallView {
    Function { id: Seq<char>, name: Seq<char>, arguments: Seq<char> },
}

impl View for Call {
    type V = CallView;

    open spec fn view(&self) -> CallView {
        match self {
            Call::Function { id, name, arguments } => CallView::Function {
                id: id@,
                name: name@,
                arguments: arguments@,
            },
        }
    }
}

impl Clone for Call {
    fn clone(&self) -> (r: Self)
        ensures
            r@ == self@,
    {
        match self {
            Call::Function { id, name, arguments } => Call::Function {
                id: id.clone(),
                name: name.clone(),
                arguments: arguments.clone(),
            },
        }
    }
}

/// The views of a sequence of calls, in order.
pub open spec fn call_views(s: Seq<Call>) -> Seq<CallView> {
    s.map_values(|c: Call| c@)
}

pub proof fn lemma_call_views_push(s: Seq<Call>, c: Call)
    ensures
        call_views(s.push(c)) == call_views(s).push(c@),
{
    assert(call_views(s.push(c)) =~= call_views(s).push(c@));
}

pub proof fn lemma_call_views_replace_last(s: Seq<Call>, c: Call)
    requires
        s.len() > 0,
    ensures
        call_views(s.drop_last().push(c)) == call_views(s).update(s.len() - 1, c@),
{
    assert(call_views(s.drop_last().push(c)) =~= call_views(s).update(s.len() - 1, c@));
}

/// Relies on skema::Schema only as an opaque value: the JSON-schema
/// description of a tool's parameters, produced and consumed by
/// outside collaborators and carried through untouched.
#[verifier::external_type_specification]
#[verifier::external_body]
pub struct ExSchema(skema::Schema);

/// A callable function declared to the model: its name, what it
/// does, and the schema of its parameters.
#[derive(Debug)]
pub struct Function {
    pub name: String,
    pub description: String,
    pub parameters: skema::Schema,
}

/// A tool the model may call during a completion.
#[derive(Debug)]
pub enum Tool {
    Function { function: Function },
}

/// The result of executing a tool call, fed back to the model as a
/// tool message; `id` must match the `Call` it answers.
#[derive(Debug)]
pub struct Response {
    pub id: Id,
    pub content: String,
}

#[verifier::ext_equal]
pub struct ResponseView {
    pub id: Seq<char>,
    pub content: Seq<char>,
}

impl View for Response {
    type V = ResponseView;

    open spec fn view(&self) -> ResponseView {
        ResponseView { id: self.id@, content: self.content@ }
    }
}

impl Clone for Response {
    fn clone(&self) -> (r: Self)
        ensures
            r@ == self@,
    {
        Response { id: self.id.clone(), content: self.content.clone() }
    }
}

} // verus!
