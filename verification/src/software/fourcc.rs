//! Pixel formats by their four letters.

use vstd::prelude::*;

verus! {

/// The code of the format with eight bits for each of red, green and blue in four bytes, `XR24`.
pub const XRGB8888: u32 = 0x3432_5258;

/// The code of the format with five bits for red and blue and six for green, `RG16`.
pub const RGB565: u32 = 0x3631_4752;

/// The flag for big endian, which is a code but no format and has no letters.
pub const BIG_ENDIAN: u32 = 0x8000_0000;

/// Whether a code is one of a pixel format, as `drm::buffer::DrmFourcc::try_from` has it.
pub uninterp spec fn is_drm_fourcc(code: u32) -> bool;

/// The four letters of a code, from its lowest byte to its highest.
pub open spec fn letters(code: u32) -> Seq<char> {
    seq![
        (code % 0x100) as u8 as char,
        (code / 0x100 % 0x100) as u8 as char,
        (code / 0x1_0000 % 0x100) as u8 as char,
        (code / 0x100_0000) as u8 as char,
    ]
}

/// The letters of a format. This calls `drm::buffer::DrmFourcc::try_from` on the code and
/// `to_string` on the format, and trusts that the formats are those that `is_drm_fourcc` names,
/// the two that are rendered to among them, and that the text is the four letters of the code. The
/// flag for big endian is recognized there but cannot be turned into a text.
#[verifier::external_body]
fn fourcc_to_string(code: u32) -> (name: Option<String>)
    requires
        code != BIG_ENDIAN,
    ensures
        name is Some <==> is_drm_fourcc(code),
        code == XRGB8888 || code == RGB565 ==> name is Some,
        name matches Some(name) ==> name@ == letters(code),
{
    match drm::buffer::DrmFourcc::try_from(code) {
        Ok(format) => Some(format.to_string()),
        Err(_) => None,
    }
}

/// A pixel format.
#[derive(Debug)]
pub struct DrmFourcc {
    code: u32,
    name: String,
}

impl DrmFourcc {
    pub closed spec fn spec_code(&self) -> u32 {
        self.code
    }

    #[verifier::type_invariant]
    spec fn well_formed(self) -> bool {
        self.name@ == letters(self.code)
    }

    /// The format of a code, where there is one.
    pub fn new(code: u32) -> (format: Option<DrmFourcc>)
        requires
            code != BIG_ENDIAN,
        ensures
            format is Some <==> is_drm_fourcc(code),
            code == XRGB8888 || code == RGB565 ==> format is Some,
            format matches Some(format) ==> format.spec_code() == code,
    {
        match fourcc_to_string(code) {
            Some(name) => Some(DrmFourcc { code, name }),
            None => None,
        }
    }

    /// The code of the format.
    pub fn code(&self) -> (code: u32)
        ensures
            code == self.spec_code(),
    {
        self.code
    }

    /// The letters of the format.
    pub fn name(&self) -> (name: &str)
        ensures
            name@ == letters(self.spec_code()),
    {
        proof {
            use_type_invariant(self);
        }
        self.name.as_str()
    }
}

/// The letters of a code are its four bytes, from the lowest to the highest, and so make it up.
pub proof fn law_letters_make_the_code(code: u32)
    ensures
        letters(code).len() == 4,
        forall|i: int| 0 <= i < 4 ==> (#[trigger] letters(code)[i] as int) < 0x100,
        letters(code)[0] as int + 0x100 * (letters(code)[1] as int) + 0x1_0000 * (
        letters(code)[2] as int) + 0x100_0000 * (letters(code)[3] as int) == code,
{
}

} // verus!
