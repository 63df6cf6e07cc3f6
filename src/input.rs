//! Inputs: a label for messages, and the compression format recognised from the first bytes.
use vstd::prelude::*;

verus! {

/// Whether `b` begins with `m`.
pub open spec fn starts_with(b: Seq<u8>, m: Seq<u8>) -> bool {
    m.len() <= b.len() && b.subrange(0, m.len() as int) == m
}

/// The compression format whose magic number begins the data, checked in the order
/// bzip2, gzip, lz4, xz, zstd.
pub open spec fn format_of(b: Seq<u8>) -> Option<Seq<char>> {
    if starts_with(b, seq![0x42u8, 0x5au8, 0x68u8]) {
        Some("bzip2"@)
    } else if starts_with(b, seq![0x1fu8, 0x8bu8, 0x08u8]) {
        Some("gzip"@)
    } else if starts_with(b, seq![0x04u8, 0x22u8, 0x4du8, 0x18u8]) {
        Some("lz4"@)
    } else if starts_with(b, seq![0xfdu8, 0x37u8, 0x7au8, 0x58u8, 0x5au8, 0x00u8]) {
        Some("xz"@)
    } else if starts_with(b, seq![0x28u8, 0xb5u8, 0x2fu8, 0xfdu8]) {
        Some("zstd"@)
    } else {
        None
    }
}

fn has_prefix(b: &[u8], m: &[u8]) -> (r: bool)
    ensures
        r == starts_with(b@, m@),
{
    if m.len() > b.len() {
        return false;
    }
    let mut i: usize = 0;
    while i < m.len()
        invariant
            m@.len() <= b@.len(),
            i <= m@.len(),
            forall|j: int| 0 <= j < i ==> b@[j] == m@[j],
        decreases m@.len() - i,
    {
        if b[i] != m[i] {
            proof {
                assert(b@.subrange(0, m@.len() as int)[i as int] != m@[i as int]);
            }
            return false;
        }
        i = i + 1;
    }
    proof {
        assert(b@.subrange(0, m@.len() as int) =~= m@);
    }
    true
}

/// A source of lines: its label, and the compression format its data starts with.
pub struct Input {
    pub label: String,
    pub format: Option<&'static str>,
}

impl Input {
    /// Describes an input from the first bytes of its data.
    pub fn reader(prefix: &[u8], label: String) -> (r: Input)
        ensures
            r.label@ == label@,
            r.format is Some <==> format_of(prefix@) is Some,
            r.format matches Some(f) ==> f@ == format_of(prefix@)->0,
    {
        let bz: [u8; 3] = [0x42, 0x5a, 0x68];
        let gz: [u8; 3] = [0x1f, 0x8b, 0x08];
        let lz: [u8; 4] = [0x04, 0x22, 0x4d, 0x18];
        let xz: [u8; 6] = [0xfd, 0x37, 0x7a, 0x58, 0x5a, 0x00];
        let zs: [u8; 4] = [0x28, 0xb5, 0x2f, 0xfd];
        proof {
            assert(bz@ =~= seq![0x42u8, 0x5au8, 0x68u8]);
            assert(gz@ =~= seq![0x1fu8, 0x8bu8, 0x08u8]);
            assert(lz@ =~= seq![0x04u8, 0x22u8, 0x4du8, 0x18u8]);
            assert(xz@ =~= seq![0xfdu8, 0x37u8, 0x7au8, 0x58u8, 0x5au8, 0x00u8]);
            assert(zs@ =~= seq![0x28u8, 0xb5u8, 0x2fu8, 0xfdu8]);
        }
        let format = if has_prefix(prefix, bz.as_slice()) {
            Some("bzip2")
        } else if has_prefix(prefix, gz.as_slice()) {
            Some("gzip")
        } else if has_prefix(prefix, lz.as_slice()) {
            Some("lz4")
        } else if has_prefix(prefix, xz.as_slice()) {
            Some("xz")
        } else if has_prefix(prefix, zs.as_slice()) {
            Some("zstd")
        } else {
            None
        };
        Input { label, format }
    }

    pub fn get_label(&self) -> (r: &str)
        ensures
            r@ == self.label@,
    {
        self.label.as_str()
    }

    pub fn get_format(&self) -> (r: &Option<&'static str>)
        ensures
            *r == self.format,
    {
        &self.format
    }
}

} // verus!
