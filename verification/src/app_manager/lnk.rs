//! Shortcut files.

#![verifier::loop_isolation(false)]

use vstd::prelude::*;

verus! {

/// The identifier that a shortcut begins with.
pub open spec fn shortcut_class() -> Seq<u8> {
    seq![
        0x01u8,
        0x14,
        0x02,
        0x00,
        0x00,
        0x00,
        0x00,
        0x00,
        0xC0,
        0x00,
        0x00,
        0x00,
        0x00,
        0x00,
        0x00,
        0x46,
    ]
}

/// The number that two bytes denote, the low one first.
pub open spec fn u16_at(data: Seq<u8>, i: int) -> int {
    data[i] + 256 * data[i + 1]
}

/// The number that four bytes denote, the low one first.
pub open spec fn u32_at(data: Seq<u8>, i: int) -> int {
    data[i] + 256 * data[i + 1] + 65536 * data[i + 2] + 16777216 * data[i + 3]
}

/// Where the link information begins: behind the header and, where there is
/// one, the list of identifiers, whose first two bytes give its size.
pub open spec fn info_offset(data: Seq<u8>) -> Option<int> {
    if data[0x14] % 2 == 1 {
        if data.len() < 78 {
            None
        } else {
            Some(76 + u16_at(data, 76))
        }
    } else {
        Some(76)
    }
}

/// Where the path of a shortcut's target begins. There is none if the file is
/// too short, is no shortcut, or holds no local path.
pub open spec fn path_offset(data: Seq<u8>) -> Option<int> {
    if data.len() < 76 || data.take(16) != shortcut_class() || (data[0x14] / 2) % 2 == 0 {
        None
    } else {
        match info_offset(data) {
            None => None,
            Some(at) => if at + 20 > data.len() || u32_at(data, at) < 16 || at + u32_at(data, at)
                > data.len() || data[at + 8] % 2 == 0 || at + u32_at(data, at + 16) >= data.len() {
                None
            } else {
                Some(at + u32_at(data, at + 16))
            },
        }
    }
}

/// Where the text that begins at `start` ends: at the first zero byte or at
/// the end of the file.
pub open spec fn is_text_end(data: Seq<u8>, start: int, end: int) -> bool {
    &&& start <= end <= data.len()
    &&& forall|i: int| start <= i < end ==> #[trigger] data[i] != 0
    &&& end < data.len() ==> data[end] == 0
}

/// Whether a text is what bytes encode; they may encode none.
pub open spec fn is_decoding(bytes: Seq<u8>, r: Option<Seq<char>>) -> bool {
    match r {
        Some(s) => vstd::utf8::valid_utf8(bytes) && s == vstd::utf8::decode_utf8(bytes),
        None => !vstd::utf8::valid_utf8(bytes),
    }
}

/// Whether a text is the target of a shortcut.
pub open spec fn is_target(data: Seq<u8>, r: Option<Seq<char>>) -> bool {
    match path_offset(data) {
        None => r is None,
        Some(start) => is_text_from(data, start, r),
    }
}

/// Whether a text is what stands at a place.
pub open spec fn is_text_from(data: Seq<u8>, start: int, r: Option<Seq<char>>) -> bool {
    exists|end: int|
        is_text_end(data, start, end) && #[trigger] is_decoding(data.subrange(start, end), r)
}

fn read_u32(data: &Vec<u8>, i: usize) -> (r: usize)
    requires
        i + 4 <= data@.len(),
    ensures
        r == u32_at(data@, i as int),
{
    let n: usize = data.len();
    assert(i + 4 <= n);
    data[i] as usize + 256 * (data[i + 1] as usize) + 65536 * (data[i + 2] as usize) + 16777216 * (
    data[i + 3] as usize)
}

/// The path of a shortcut's target.
pub fn parse_lnk_target(data: &Vec<u8>) -> (r: Option<String>)
    ensures
        is_target(data@, crate::text::view_of(r)),
{
    let n: usize = data.len();
    if n < 76 {
        return None;
    }
    let class: Vec<u8> = vec![
        0x01u8,
        0x14,
        0x02,
        0x00,
        0x00,
        0x00,
        0x00,
        0x00,
        0xC0,
        0x00,
        0x00,
        0x00,
        0x00,
        0x00,
        0x00,
        0x46,
    ];
    assert(class@ =~= shortcut_class());
    let mut k: usize = 0;
    while k < 16
        invariant
            k <= 16,
            class@ == shortcut_class(),
            n == data@.len(),
            n >= 76,
            forall|j: int| 0 <= j < k ==> data@[j] == shortcut_class()[j],
        decreases 16 - k,
    {
        if data[k] != class[k] {
            assert(data@.take(16)[k as int] != shortcut_class()[k as int]);
            return None;
        }
        k = k + 1;
    }
    assert(data@.take(16) =~= shortcut_class());
    if (data[0x14] / 2) % 2 == 0 {
        return None;
    }
    let mut at: usize = 76;
    if data[0x14] % 2 == 1 {
        if n < 78 {
            return None;
        }
        at = 76 + data[76] as usize + 256 * (data[77] as usize);
    }
    if at > n || n - at < 20 {
        return None;
    }
    let size: usize = read_u32(data, at);
    if size < 16 || size > n - at {
        return None;
    }
    if data[at + 8] % 2 == 0 {
        return None;
    }
    let path: usize = read_u32(data, at + 16);
    if path >= n - at {
        return None;
    }
    let start: usize = at + path;
    let mut bytes: Vec<u8> = Vec::new();
    let mut end: usize = start;
    while end < n && data[end] != 0
        invariant
            n == data@.len(),
            start <= end <= n,
            bytes@ == data@.subrange(start as int, end as int),
            forall|i: int| start <= i < end ==> #[trigger] data@[i] != 0,
        decreases n - end,
    {
        bytes.push(data[end]);
        end = end + 1;
        assert(data@.subrange(start as int, end as int) =~= data@.subrange(
            start as int,
            end - 1,
        ).push(data@[end - 1]));
    }
    assert(is_text_end(data@, start as int, end as int));
    assert(path_offset(data@) == Some(start as int));
    let r = match crate::text::decode_utf8_text(bytes) {
        Ok(path) => Some(path),
        Err(_) => None,
    };
    assert(is_decoding(data@.subrange(start as int, end as int), crate::text::view_of(r)));
    assert(is_text_from(data@, start as int, crate::text::view_of(r)));
    r
}

/// No shortcut that is cut off before its link information has a target.
pub proof fn law_truncated_shortcut_has_no_target(data: Seq<u8>)
    requires
        data.len() < 96,
    ensures
        path_offset(data) is None,
{
}

} // verus!
