//! Decisions of a live-reload driver: which changed files to render, and what to show
//! after each render. A failed render never replaces the last good output.

use vstd::prelude::*;
use crate::dom::DomNode;
use crate::runtime::{RuntimeError, runtime_error_text};

verus! {

/// What the driver does after a render.
#[derive(Debug)]
pub enum LiveAction {
    /// Serve the new output and tell clients to reload.
    Reload,
    /// Keep serving the last good output and show this error.
    ShowError(String),
}

/// The output being served and the error being shown, if any.
pub struct LiveState {
    pub last_good: Option<Vec<DomNode>>,
    pub last_error: Option<String>,
    /// The number of successful renders so far, saturating.
    pub generation: u64,
}

/// Whether a path names a page source file: it ends in `.dts`.
pub open spec fn is_page_source(path: Seq<char>) -> bool {
    path.len() >= 4 && path.subrange(path.len() - 4, path.len() as int) == seq!['.', 'd', 't', 's']
}

/// Whether a changed path is a page source file that should be rendered again.
pub fn should_render(path: &str) -> (r: bool)
    ensures
        r == is_page_source(path@),
{
    let v = crate::text::chars_of(path);
    let n = v.len();
    if n < 4 {
        return false;
    }
    let r = v[n - 4] == '.' && v[n - 3] == 'd' && v[n - 2] == 't' && v[n - 1] == 's';
    assert(r == (v@.subrange(n - 4, n as int) =~= seq!['.', 'd', 't', 's']));
    r
}

impl LiveState {
    pub fn new() -> (r: LiveState)
        ensures
            r.last_good is None,
            r.last_error is None,
            r.generation == 0,
    {
        LiveState { last_good: None, last_error: None, generation: 0 }
    }

    /// Takes the outcome of rendering a changed source. Success replaces the output,
    /// clears the error and asks for a reload; failure keeps the output and shows the error.
    pub fn on_render(&mut self, outcome: Result<Vec<DomNode>, RuntimeError>) -> (r: LiveAction)
        ensures
            outcome is Ok ==> {
                &&& final(self).last_good == Some(outcome->Ok_0)
                &&& final(self).last_error is None
                &&& final(self).generation == if old(self).generation < u64::MAX {
                    (old(self).generation + 1) as u64
                } else {
                    old(self).generation
                }
                &&& r is Reload
            },
            outcome is Err ==> {
                let text = runtime_error_text(outcome->Err_0.message@, outcome->Err_0.span);
                &&& final(self).last_good == old(self).last_good
                &&& final(self).generation == old(self).generation
                &&& final(self).last_error is Some && final(self).last_error->0@ == text
                &&& r is ShowError && r->ShowError_0@ == text
            },
    {
        match outcome {
            Ok(dom) => {
                self.last_good = Some(dom);
                self.last_error = None;
                if self.generation < u64::MAX {
                    self.generation = self.generation + 1;
                }
                LiveAction::Reload
            },
            Err(e) => {
                let text = e.describe();
                self.last_error = Some(text.clone());
                LiveAction::ShowError(text)
            },
        }
    }
}

} // verus!
