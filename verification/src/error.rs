use vstd::prelude::*;
use vstd::string::StringExecFns;

verus! {

/// The errors of the library, each with a description.
#[derive(Debug)]
pub enum MyError {
    Audio(String),
    File(String),
    Syntax(String),
}

/// What an error holds, as plain values.
pub enum MyErrorView {
    Audio(Seq<char>),
    File(Seq<char>),
    Syntax(Seq<char>),
}

impl View for MyError {
    type V = MyErrorView;

    open spec fn view(&self) -> MyErrorView {
        match self {
            MyError::Audio(s) => MyErrorView::Audio(s@),
            MyError::File(s) => MyErrorView::File(s@),
            MyError::Syntax(s) => MyErrorView::Syntax(s@),
        }
    }
}

/// The text an error is shown as: its kind, a colon and its description.
pub open spec fn error_message(e: MyErrorView) -> Seq<char> {
    match e {
        MyErrorView::Audio(s) => "AudioError: "@ + s,
        MyErrorView::File(s) => "FileError: "@ + s,
        MyErrorView::Syntax(s) => "SyntaxError: "@ + s,
    }
}

impl MyError {
    /// The text this error is shown as.
    pub fn to_message(&self) -> (r: String)
        ensures
            r@ == error_message(self@),
    {
        match self {
            MyError::Audio(e) => {
                let mut r = String::from_str("AudioError: ");
                r.append(e.as_str());
                r
            },
            MyError::File(e) => {
                let mut r = String::from_str("FileError: ");
                r.append(e.as_str());
                r
            },
            MyError::Syntax(e) => {
                let mut r = String::from_str("SyntaxError: ");
                r.append(e.as_str());
                r
            },
        }
    }
}

} // verus!
