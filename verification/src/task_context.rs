//! What a consensus task's context is built from: where each attachment's
//! text comes from, and which context providers the pack asks for.
use vstd::prelude::*;
use crate::consensus::TaskAttachment;
use crate::report::opt_str;
use crate::task_pack::{AttachmentKind, ContextProvider, PackError, TaskPack};

verus! {

/// Where an attachment's text is read from.
#[derive(Clone, Debug)]
pub enum AttachmentSource {
    /// The file at this path.
    Path(String),
    /// The text given inline.
    Inline(String),
}

/// Why an attachment cannot be used.
#[derive(Clone, Debug)]
pub enum AttachmentError {
    /// The pack does not accept the attachment's kind.
    Pack(PackError),
    /// The attachment, named by its id, has neither a path nor inline text.
    MissingContent(String),
}

/// The pack lists no kinds, or lists this one.
pub open spec fn kind_allowed(pack: TaskPack, kind: AttachmentKind) -> bool {
    pack.manifest.allowed_attachment_kinds@.len() == 0 || pack.manifest.allowed_attachment_kinds@.contains(kind)
}

/// The source of an attachment: its kind is checked first, then its path
/// is preferred to its inline text.
pub fn attachment_source(pack: &TaskPack, att: &TaskAttachment) -> (r: Result<AttachmentSource, AttachmentError>)
    ensures
        !kind_allowed(*pack, att.kind) <==> r matches Err(AttachmentError::Pack(_)),
        r matches Err(AttachmentError::Pack(e)) ==> e == (PackError::AttachmentKindNotAllowed {
            pack: pack.manifest.id,
            kind: att.kind,
        }),
        (kind_allowed(*pack, att.kind) && att.path is None && att.inline is None) <==> r matches Err(
            AttachmentError::MissingContent(_),
        ),
        r matches Err(AttachmentError::MissingContent(id)) ==> id@ == att.id@,
        (kind_allowed(*pack, att.kind) && att.path is Some) <==> r matches Ok(AttachmentSource::Path(_)),
        r matches Ok(AttachmentSource::Path(p)) ==> opt_str(att.path) == Some(p@),
        (kind_allowed(*pack, att.kind) && att.path is None && att.inline is Some) <==> r matches Ok(
            AttachmentSource::Inline(_),
        ),
        r matches Ok(AttachmentSource::Inline(t)) ==> opt_str(att.inline) == Some(t@),
{
    match pack.validate_attachment_kind(&att.kind) {
        Err(e) => Err(AttachmentError::Pack(e)),
        Ok(()) => match &att.path {
            Some(p) => Ok(AttachmentSource::Path(p.clone())),
            None => match &att.inline {
                Some(t) => Ok(AttachmentSource::Inline(t.clone())),
                None => Err(AttachmentError::MissingContent(att.id.clone())),
            },
        },
    }
}

/// The pack asks for this context provider.
pub fn uses_provider(pack: &TaskPack, provider: ContextProvider) -> (r: bool)
    ensures
        r == pack.manifest.context_providers@.contains(provider),
{
    let ps = &pack.manifest.context_providers;
    let mut i: usize = 0;
    while i < ps.len()
        invariant
            i <= ps@.len(),
            ps@ == pack.manifest.context_providers@,
            forall|k: int| 0 <= k < i ==> ps@[k] != provider,
        decreases ps.len() - i,
    {
        if ps[i] == provider {
            assert(ps@[i as int] == provider);
            return true;
        }
        i += 1;
    }
    false
}

} // verus!
