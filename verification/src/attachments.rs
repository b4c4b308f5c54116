//! Attachments on their way: each is fetched from the source and uploaded
//! again, and one that cannot be fetched is left out.

use vstd::prelude::*;

verus! {

/// A file that was fetched from the source and waits to be uploaded.
#[derive(Debug, PartialEq, Eq)]
pub struct MirroredAttachment {
    pub filename: String,
    pub data: Vec<u8>,
}

pub struct MirroredAttachmentView {
    pub filename: Seq<char>,
    pub data: Seq<u8>,
}

impl View for MirroredAttachment {
    type V = MirroredAttachmentView;

    open spec fn view(&self) -> MirroredAttachmentView {
        MirroredAttachmentView { filename: self.filename@, data: self.data@ }
    }
}

/// The views of a list of fetched files, in order.
pub open spec fn mirrored_views(files: Seq<MirroredAttachment>) -> Seq<MirroredAttachmentView> {
    files.map_values(|f: MirroredAttachment| f@)
}

/// The views of what came back for a list of attachments, in order: the file,
/// or `None` where it could not be fetched.
pub open spec fn fetched_views(fetched: Seq<Option<MirroredAttachment>>) -> Seq<
    Option<MirroredAttachmentView>,
> {
    fetched.map_values(
        |f: Option<MirroredAttachment>|
            match f {
                Some(file) => Some(file@),
                None => None,
            },
    )
}

/// The files among `fetched`, in the order in which they came.
pub open spec fn kept(fetched: Seq<Option<MirroredAttachmentView>>) -> Seq<MirroredAttachmentView>
    decreases fetched.len(),
{
    if fetched.len() == 0 {
        Seq::empty()
    } else {
        kept(fetched.drop_last()) + match fetched.last() {
            Some(file) => seq![file],
            None => Seq::empty(),
        }
    }
}

/// Keeps the attachments that could be fetched, in their order, and drops
/// the others.
pub fn create_attachments(fetched: Vec<Option<MirroredAttachment>>) -> (files: Vec<
    MirroredAttachment,
>)
    ensures
        mirrored_views(files@) == kept(fetched_views(fetched@)),
{
    let mut files: Vec<MirroredAttachment> = Vec::new();
    assert(mirrored_views(files@) =~= kept(fetched_views(fetched@.take(0))));
    for entry in it: fetched
        invariant
            it.seq() == fetched@,
            mirrored_views(files@) == kept(fetched_views(fetched@.take(it.index() as int))),
    {
        let ghost done = fetched@.take(it.index() as int);
        let ghost sofar = mirrored_views(files@);
        assert(fetched@.take(it.index() + 1) =~= done.push(entry));
        assert(fetched_views(done.push(entry)).drop_last() =~= fetched_views(done));
        match entry {
            Some(file) => {
                files.push(file);
                assert(mirrored_views(files@) =~= sofar + seq![file@]);
            },
            None => {
                assert(sofar + Seq::empty() =~= sofar);
            },
        }
    }
    assert(fetched@.take(fetched@.len() as int) =~= fetched@);
    files
}

} // verus!
