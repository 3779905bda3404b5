//! The text a log line is prefixed with: each enclosing span contributes its
//! name and recorded field values.  The machinery that walks spans and feeds
//! values in lives with the logging backend outside the library; what stands
//! here is the formatting itself.

use vstd::prelude::*;
use vstd::string::{StrSliceExecFns, StringExecFns};

verus! {

/// What one field contributes when it is begun in a buffer: a space between
/// fields, then `name=` for every field but the event's own message text.
pub open spec fn field_prefix(buf: Seq<char>, name: Seq<char>) -> Seq<char> {
    buf + (if buf.len() == 0 {
        Seq::<char>::empty()
    } else {
        " "@
    }) + (if name == "message"@ {
        Seq::<char>::empty()
    } else {
        name + "="@
    })
}

/// Collects a span's recorded fields into one text buffer.
#[derive(Clone, Debug)]
pub struct Visitor {
    /// The text collected so far.
    pub output: String,
}

impl Visitor {
    /// A visitor with an empty buffer.
    pub fn new() -> (r: Visitor)
        ensures
            r.output@.len() == 0,
    {
        Visitor { output: String::new() }
    }

    /// Begins one field in the buffer.
    pub fn record_field(&mut self, field_name: &str)
        ensures
            final(self).output@ == field_prefix(old(self).output@, field_name@),
    {
        if !self.output.as_str().is_empty() {
            self.output.append(" ");
        }
        let name = field_name.to_owned();
        let message = "message".to_owned();
        if !(name == message) {
            self.output.append(field_name);
            self.output.append("=");
        }
    }

    /// Records one field with its value as text.
    pub fn record_str(&mut self, field_name: &str, value: &str)
        ensures
            final(self).output@ == field_prefix(old(self).output@, field_name@) + value@,
    {
        self.record_field(field_name);
        self.output.append(value);
    }
}

/// The prefix one span contributes to a log line: its name, and the field
/// values recorded on it.
#[derive(Clone, Debug)]
pub struct SpanPrefix {
    /// The span's name.
    pub name: String,
    /// The span's recorded field values, as collected by a [`Visitor`].
    pub values: String,
}

impl SpanPrefix {
    /// A prefix for a span that has recorded no values yet.
    pub fn new(name: String) -> (r: SpanPrefix)
        ensures
            r.name@ == name@,
            r.values@.len() == 0,
    {
        SpanPrefix { name, values: String::new() }
    }

    /// The rendered prefix: `name:` while no values are recorded, otherwise
    /// `name{values}:`.
    pub fn render(&self) -> (r: String)
        ensures
            r@ == if self.values@.len() == 0 {
                self.name@ + ":"@
            } else {
                self.name@ + "{"@ + self.values@ + "}"@ + ":"@
            },
    {
        let mut out = self.name.clone();
        if self.values.as_str().is_empty() {
            out.append(":");
        } else {
            out.append("{");
            out.append(self.values.as_str());
            out.append("}");
            out.append(":");
        }
        out
    }
}

} // verus!
