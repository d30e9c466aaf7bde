//! The structured diagnostic every fallible operation of the core returns:
//! a message, an optional longer description, an optional source span and an
//! optional internal origin.

use vstd::prelude::*;
use crate::text::{dec_string, push_char, u64_to_string};

verus! {

/// A structured evaluation error.
///
/// `message` names the error kind (for example `"Unit Error"`), `description`
/// explains it, `span` points at the offending bytes of the source line, and
/// `location` records an internal origin for debug surfaces.
#[derive(Debug)]
pub struct SiffraExecutionError {
    message: String,
    description: Option<String>,
    span: Option<(usize, usize)>,
    location: Option<(String, u32)>,
}

/// The view of an error: the same four components over mathematical types.
pub struct ErrorModel {
    pub message: Seq<char>,
    pub description: Option<Seq<char>>,
    pub span: Option<(usize, usize)>,
    pub location: Option<(Seq<char>, u32)>,
}

impl View for SiffraExecutionError {
    type V = ErrorModel;

    closed spec fn view(&self) -> ErrorModel {
        ErrorModel {
            message: self.message@,
            description: match self.description {
                Some(ref d) => Some(d@),
                None => None,
            },
            span: self.span,
            location: match self.location {
                Some((ref f, l)) => Some((f@, l)),
                None => None,
            },
        }
    }
}

impl Clone for SiffraExecutionError {
    fn clone(&self) -> (r: Self)
        ensures
            r@ == self@,
    {
        SiffraExecutionError {
            message: self.message.clone(),
            description: match &self.description {
                Some(d) => Some(d.clone()),
                None => None,
            },
            span: self.span,
            location: match &self.location {
                Some((f, l)) => Some((f.clone(), *l)),
                None => None,
            },
        }
    }
}

impl SiffraExecutionError {
    pub fn new(message: String) -> (r: SiffraExecutionError)
        ensures
            r@.message == message@,
            r@.description is None,
            r@.span is None,
            r@.location is None,
    {
        SiffraExecutionError { message, description: None, span: None, location: None }
    }

    pub fn with_description(self, description: String) -> (r: SiffraExecutionError)
        ensures
            r@.message == self@.message,
            r@.description == Some(description@),
            r@.span == self@.span,
            r@.location == self@.location,
    {
        SiffraExecutionError { description: Some(description), ..self }
    }

    pub fn with_span(self, start: usize, end: usize) -> (r: SiffraExecutionError)
        ensures
            r@.message == self@.message,
            r@.description == self@.description,
            r@.span == Some((start, end)),
            r@.location == self@.location,
    {
        SiffraExecutionError { span: Some((start, end)), ..self }
    }

    pub fn with_location(self, file: String, line: u32) -> (r: SiffraExecutionError)
        ensures
            r@.message == self@.message,
            r@.description == self@.description,
            r@.span == self@.span,
            r@.location == Some((file@, line)),
    {
        SiffraExecutionError { location: Some((file, line)), ..self }
    }

    pub fn message(&self) -> (r: String)
        ensures
            r@ == self@.message,
    {
        self.message.clone()
    }

    pub fn description(&self) -> (r: Option<String>)
        ensures
            r matches Some(d) ==> self@.description == Some(d@),
            r is None <==> self@.description is None,
    {
        match &self.description {
            Some(d) => Some(d.clone()),
            None => None,
        }
    }

    pub fn span(&self) -> (r: Option<(usize, usize)>)
        ensures
            r == self@.span,
    {
        self.span
    }

    /// The internal origin rendered as `file:line`, when one was recorded.
    pub fn location(&self) -> (r: Option<String>)
        ensures
            r matches Some(s) ==> self@.location matches Some((f, l)) && s@ == f + seq![':']
                + dec_string(l as nat),
            r is None <==> self@.location is None,
    {
        match &self.location {
            Some((file, line)) => {
                let mut s = file.clone();
                push_char(&mut s, ':');
                let digits = u64_to_string(*line as u64);
                s.append(digits.as_str());
                proof {
                    assert(s@ == file@ + seq![':'] + dec_string(*line as nat));
                }
                Some(s)
            },
            None => None,
        }
    }
}

} // verus!
