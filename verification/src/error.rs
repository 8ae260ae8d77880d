use vstd::prelude::*;

verus! {

/// Everything that can go wrong inside the core, one variant per failure
/// family.
#[derive(Debug, Clone)]
pub enum Error {
    /// No configured pattern matched the raw reference, or the reference
    /// could not be completed with the default owner.
    UnresolvedReference,
    /// An identity field is empty or would escape the workspace root.
    InvalidIdentitySegment,
    /// No platform descriptor matches the identity's host while the
    /// requested capability has no fallback.
    NoMatchingPlatform,
    /// A platform could not be constructed, e.g. for want of a credential.
    PlatformInitError,
    /// The remote platform rejected a call; carries the remote's message.
    PlatformApiError(String),
    /// The clone transport failed; carries the underlying cause.
    CloneError(String),
    /// The configuration store rejected a key; carries the rejected key.
    ProfileApplyError(String),
    /// Two requested references resolve to the same target path; carries
    /// that path. The conflict policy is to reject the whole plan upfront.
    DuplicateTarget(String),
    /// The selected platform does not offer the requested capability.
    CapabilityNotSupported,
}

impl Error {
    /// A short, stable label for the variant, for user-facing reports.
    pub fn label(&self) -> (r: &'static str)
        ensures
            (self is UnresolvedReference ==> r@ == "unresolved reference"@),
            (self is InvalidIdentitySegment ==> r@ == "invalid identity segment"@),
            (self is NoMatchingPlatform ==> r@ == "no matching platform"@),
            (self is PlatformInitError ==> r@ == "platform initialization failed"@),
            (self is PlatformApiError ==> r@ == "platform api error"@),
            (self is CloneError ==> r@ == "clone failed"@),
            (self is ProfileApplyError ==> r@ == "profile apply rejected"@),
            (self is DuplicateTarget ==> r@ == "duplicate target path"@),
            (self is CapabilityNotSupported ==> r@ == "capability not supported"@),
    {
        match self {
            Error::UnresolvedReference => "unresolved reference",
            Error::InvalidIdentitySegment => "invalid identity segment",
            Error::NoMatchingPlatform => "no matching platform",
            Error::PlatformInitError => "platform initialization failed",
            Error::PlatformApiError(_) => "platform api error",
            Error::CloneError(_) => "clone failed",
            Error::ProfileApplyError(_) => "profile apply rejected",
            Error::DuplicateTarget(_) => "duplicate target path",
            Error::CapabilityNotSupported => "capability not supported",
        }
    }
}

} // verus!
