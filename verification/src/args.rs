use vstd::prelude::*;

verus! {

/// Model of one argument value handed to the pattern formatter.
pub ghost enum ArgView {
    Text(Seq<char>),
    Integer(i64),
}

/// One named-argument value: message patterns interpolate either a piece of
/// text or an integer.
pub enum ArgValue {
    Text(String),
    Integer(i64),
}

impl View for ArgValue {
    type V = ArgView;

    open spec fn view(&self) -> ArgView {
        match self {
            ArgValue::Text(s) => ArgView::Text(s@),
            ArgValue::Integer(i) => ArgView::Integer(*i),
        }
    }
}

/// What one lookup-and-format round against the bundle produced.
pub enum FormatOutcome {
    /// No message is stored under the key.
    Missing,
    /// The message exists but carries no value pattern.
    NoValue,
    /// The message's pattern, formatted with the given arguments.
    Done(String),
}

} // verus!
