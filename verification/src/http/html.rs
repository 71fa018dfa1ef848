use vstd::prelude::*;

verus! {

/// A body to send, with the content type to announce for it.
#[derive(Debug, PartialEq, Eq)]
pub struct Html {
    pub content_type: String,
    pub content: String,
}

impl Clone for Html {
    fn clone(&self) -> (copy: Self)
        ensures
            copy.content_type@ == self.content_type@,
            copy.content@ == self.content@,
    {
        Html { content_type: self.content_type.clone(), content: self.content.clone() }
    }
}

} // verus!
