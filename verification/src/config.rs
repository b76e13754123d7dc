use vstd::prelude::*;

verus! {

/// The configuration surface the decoder consumes.
///
/// Only `ignore_zeros` changes decoding behaviour: a zero-filled header
/// record is then skipped instead of ending the archive, which supports
/// concatenated archives. The other three flags are carried through to each
/// entry untouched, for the extraction collaborator.
#[derive(Clone, Copy, PartialEq, Eq, Structural, Debug)]
pub struct DecodeConfig {
    pub unpack_xattrs: bool,
    pub preserve_permissions: bool,
    pub preserve_mtime: bool,
    pub ignore_zeros: bool,
}

impl DecodeConfig {
    /// The default configuration: only modification times are preserved.
    pub fn new() -> (c: DecodeConfig)
        ensures
            c == (DecodeConfig {
                unpack_xattrs: false,
                preserve_permissions: false,
                preserve_mtime: true,
                ignore_zeros: false,
            }),
    {
        DecodeConfig {
            unpack_xattrs: false,
            preserve_permissions: false,
            preserve_mtime: true,
            ignore_zeros: false,
        }
    }

    /// Indicate whether extended file attributes are preserved when
    /// unpacking.
    pub fn set_unpack_xattrs(self, unpack_xattrs: bool) -> (c: DecodeConfig)
        ensures
            c == (DecodeConfig { unpack_xattrs, ..self }),
    {
        DecodeConfig { unpack_xattrs, ..self }
    }

    /// Indicate whether extended permissions are preserved when unpacking.
    pub fn set_preserve_permissions(self, preserve: bool) -> (c: DecodeConfig)
        ensures
            c == (DecodeConfig { preserve_permissions: preserve, ..self }),
    {
        DecodeConfig { preserve_permissions: preserve, ..self }
    }

    /// Indicate whether modification times are preserved when unpacking.
    pub fn set_preserve_mtime(self, preserve: bool) -> (c: DecodeConfig)
        ensures
            c == (DecodeConfig { preserve_mtime: preserve, ..self }),
    {
        DecodeConfig { preserve_mtime: preserve, ..self }
    }

    /// Ignore zeroed header records, which would otherwise end the archive.
    pub fn set_ignore_zeros(self, ignore_zeros: bool) -> (c: DecodeConfig)
        ensures
            c == (DecodeConfig { ignore_zeros, ..self }),
    {
        DecodeConfig { ignore_zeros, ..self }
    }
}

}
