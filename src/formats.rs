use vstd::prelude::*;
use vstd::string::StringSliceAdditionalSpecFns;

verus! {

/// The two file formats: the native document and the flat image.
#[derive(Clone, Copy, PartialEq, Eq, Debug, Structural)]
pub enum SaveFormat {
    /// The flat PNG image.
    Png,
    /// The native layered document.
    Native,
}

/// Whether `s` ends with `suffix`.
pub open spec fn ends_with(s: Seq<u8>, suffix: Seq<u8>) -> bool {
    s.len() >= suffix.len() && s.subrange(s.len() - suffix.len(), s.len() as int) == suffix
}

/// An ASCII letter in lower case; other bytes as they are.
pub open spec fn ascii_lower(b: u8) -> u8 {
    if 65 <= b <= 90 { (b + 32) as u8 } else { b }
}

pub open spec fn lowered(s: Seq<u8>) -> Seq<u8> {
    s.map_values(|b: u8| ascii_lower(b))
}

/// The bytes of ".png".
pub open spec fn png_suffix() -> Seq<u8> {
    seq![46u8, 112u8, 110u8, 103u8]
}

/// The bytes of ".rustiq".
pub open spec fn native_suffix() -> Seq<u8> {
    seq![46u8, 114u8, 117u8, 115u8, 116u8, 105u8, 113u8]
}

fn lower_byte(b: u8) -> (r: u8)
    ensures
        r == ascii_lower(b),
{
    if 65 <= b && b <= 90 { b + 32 } else { b }
}

/// Whether `s` ends with `suffix`, comparing ASCII letters without regard to
/// case when `fold_case` holds (`suffix` is then given in lower case).
fn bytes_end_with(s: &[u8], suffix: &[u8], fold_case: bool) -> (r: bool)
    ensures
        r == if fold_case { ends_with(lowered(s@), suffix@) } else { ends_with(s@, suffix@) },
{
    let n = s.len();
    let m = suffix.len();
    if n < m {
        return false;
    }
    let ghost t = if fold_case { lowered(s@) } else { s@ };
    let mut i: usize = 0;
    while i < m
        invariant
            n == s@.len(),
            m == suffix@.len(),
            m <= n,
            i <= m,
            t == if fold_case { lowered(s@) } else { s@ },
            forall|k: int| 0 <= k < i ==> t[n - m + k] == suffix@[k],
        decreases m - i,
    {
        let b = s[n - m + i];
        let c = if fold_case { lower_byte(b) } else { b };
        if c != suffix[i] {
            assert(t.subrange(n - m, n as int)[i as int] != suffix@[i as int]);
            return false;
        }
        i += 1;
    }
    assert(t.subrange(n - m, n as int) =~= suffix@);
    true
}

/// The format a quick save to `path` writes: PNG for a path ending in
/// ".png", native for one ending in ".rustiq", none for any other.
pub fn quick_save_format(path: &str) -> (r: Option<SaveFormat>)
    ensures
        r == if ends_with(path.spec_bytes(), png_suffix()) {
            Some(SaveFormat::Png)
        } else if ends_with(path.spec_bytes(), native_suffix()) {
            Some(SaveFormat::Native)
        } else {
            None
        },
{
    let png: [u8; 4] = [46, 112, 110, 103];
    let native: [u8; 7] = [46, 114, 117, 115, 116, 105, 113];
    assert(png@ =~= png_suffix());
    assert(native@ =~= native_suffix());
    let b = path.as_bytes();
    if bytes_end_with(b, png.as_slice(), false) {
        Some(SaveFormat::Png)
    } else if bytes_end_with(b, native.as_slice(), false) {
        Some(SaveFormat::Native)
    } else {
        None
    }
}

/// The format a file chosen in a dialog is read or written in: native when
/// its path ends in ".rustiq" in any letter case, PNG otherwise.
pub fn chosen_format(path: &str) -> (r: SaveFormat)
    ensures
        r == if ends_with(lowered(path.spec_bytes()), native_suffix()) { SaveFormat::Native } else { SaveFormat::Png },
{
    let native: [u8; 7] = [46, 114, 117, 115, 116, 105, 113];
    assert(native@ =~= native_suffix());
    if bytes_end_with(path.as_bytes(), native.as_slice(), true) {
        SaveFormat::Native
    } else {
        SaveFormat::Png
    }
}

/// Whether a PNG written to `path` needs ".png" appended: its path does not
/// end in ".png" in any letter case.
pub fn needs_png_extension(path: &str) -> (r: bool)
    ensures
        r == !ends_with(lowered(path.spec_bytes()), png_suffix()),
{
    let png: [u8; 4] = [46, 112, 110, 103];
    assert(png@ =~= png_suffix());
    !bytes_end_with(path.as_bytes(), png.as_slice(), true)
}

} // verus!
