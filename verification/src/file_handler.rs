//! The persistence boundary: one buffer together with the optional file
//! name it is bound to. Reading and writing the named resource happens
//! outside this crate; here stand the pure halves — decoding what was
//! read into a buffer, and producing the exact text a save must write.

use vstd::prelude::*;

use crate::errors::FileNameError;
use crate::text_buffer::TextBuffer;
use crate::text_model::{joined, lemma_joined_injective};

verus! {

/// One document and the name a save would write it to, if any.
pub struct FileHandler {
    pub file_name: Option<String>,
    pub file_contents: TextBuffer,
}

impl FileHandler {
    /// Binds the given name and decodes what was read at it: `contents`
    /// is the text of an existing readable file, `None` when nothing
    /// exists there or no name was given — either way the buffer starts
    /// as one empty line, so a later save can create the file.
    pub fn new(file_name: Option<String>, contents: Option<&str>) -> (h: FileHandler)
        ensures
            h.file_contents.wf(),
            h.file_name == file_name,
            joined(h.file_contents@) == (match contents {
                Some(s) => s@,
                None => Seq::<char>::empty(),
            }),
            contents is None ==> h.file_contents@ == seq![Seq::<char>::empty()],
    {
        FileHandler { file_name, file_contents: TextBuffer::load(contents) }
    }

    /// The text a save must write verbatim to the bound name. Fails with
    /// `FileNameError` exactly when no name is bound: a recoverable,
    /// user-facing condition, never a silent no-op.
    pub fn save_file(&self) -> (r: Result<String, FileNameError>)
        requires
            self.file_contents.wf(),
        ensures
            (r is Ok) <==> (self.file_name is Some),
            r matches Ok(s) ==> s@ == joined(self.file_contents@),
            r is Err ==> r == Err::<String, FileNameError>(FileNameError),
    {
        match &self.file_name {
            Some(_) => Ok(self.file_contents.serialize()),
            None => Err(FileNameError),
        }
    }
}

/// Round trip: two well-formed buffers that serialize to the same text
/// hold identical line content. With `TextBuffer::load` restoring the
/// serialized text and `save_file` writing it verbatim, a buffer saved
/// and loaded again reproduces its lines exactly.
pub proof fn lemma_round_trip(b: TextBuffer, reloaded: TextBuffer)
    requires
        b.wf(),
        reloaded.wf(),
        joined(reloaded@) == joined(b@),
    ensures
        reloaded@ == b@,
{
    b.lemma_wf_props();
    reloaded.lemma_wf_props();
    lemma_joined_injective(reloaded@, b@);
}

} // verus!
