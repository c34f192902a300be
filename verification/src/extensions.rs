//! Device extensions: reading an extension name as the driver reports it, and
//! checking that every extension the renderer needs is available.

use vstd::prelude::*;
use vstd::utf8::{
    decode_utf8, encode_scalar, encode_utf8, encode_utf8_decode_utf8, encode_utf8_valid_utf8,
    has_width_1_encoding, valid_utf8, char_u32_cast,
};
use vstd::string::StringSliceAdditionalSpecFns;

verus! {

/// The device extensions the renderer needs.
pub struct DeviceExtension {
    pub names: [&'static str; 1],
}

/// The names of the device extensions the renderer needs: the swapchain
/// extension alone.
pub open spec fn required_device_extensions() -> Seq<Seq<char>> {
    seq!["VK_KHR_swapchain"@]
}

/// The device extensions the renderer needs.
pub fn device_extensions() -> (r: DeviceExtension)
    ensures
        r.names@.len() == required_device_extensions().len(),
        forall|j: int|
            0 <= j < r.names@.len() ==> r.names@[j]@ == #[trigger] required_device_extensions()[j],
{
    DeviceExtension { names: ["VK_KHR_swapchain"] }
}

/// `n` is the position of the first zero byte of `raw`.
pub open spec fn is_first_nul(raw: Seq<u8>, n: int) -> bool {
    &&& 0 <= n < raw.len()
    &&& raw[n] == 0
    &&& forall|i: int| 0 <= i < n ==> raw[i] != 0
}

/// The text of a zero-terminated name held in a fixed-size array: the bytes
/// before the first zero byte, read as UTF-8. There is none when the array
/// holds no zero byte or those bytes are not valid UTF-8.
pub open spec fn vk_string_spec(raw: Seq<u8>) -> Option<Seq<char>> {
    if exists|n: int| is_first_nul(raw, n) {
        let n = choose|n: int| is_first_nul(raw, n);
        if valid_utf8(raw.take(n)) {
            Some(decode_utf8(raw.take(n)))
        } else {
            None
        }
    } else {
        None
    }
}

/// `std::str::from_utf8`, which accepts exactly the byte sequences that are
/// valid UTF-8 and then gives back a string slice that holds those very bytes.
#[verifier::external_body]
fn str_from_utf8(bytes: &[u8]) -> (r: Option<&str>)
    ensures
        r is Some <==> valid_utf8(bytes@),
        r matches Some(s) ==> s.spec_bytes() == bytes@,
{
    std::str::from_utf8(bytes).ok()
}

/// Reads a zero-terminated name, such as a Vulkan extension name, from the
/// fixed-size byte array that holds it.
pub fn vk_to_string(raw_string_array: &[u8]) -> (r: Option<String>)
    ensures
        match r {
            Some(s) => vk_string_spec(raw_string_array@) == Some(s@),
            None => vk_string_spec(raw_string_array@) is None,
        },
{
    let len = raw_string_array.len();
    let mut n: usize = 0;
    while n < len && raw_string_array[n] != 0
        invariant
            n <= len,
            len == raw_string_array@.len(),
            forall|i: int| 0 <= i < n ==> raw_string_array@[i] != 0,
        decreases len - n,
    {
        n = n + 1;
    }
    if n == len {
        proof {
            assert forall|m: int| !is_first_nul(raw_string_array@, m) by {
                if 0 <= m < len {
                    assert(raw_string_array@[m] != 0);
                }
            }
        }
        return None;
    }
    proof {
        assert(is_first_nul(raw_string_array@, n as int));
        let m = choose|m: int| is_first_nul(raw_string_array@, m);
        if m < n {
            assert(raw_string_array@[m] != 0);
        } else if m > n {
            assert(raw_string_array@[n as int] != 0);
        }
        assert(m == n);
    }
    let prefix = &raw_string_array[0..n];
    assert(prefix@ == raw_string_array@.take(n as int));
    match str_from_utf8(prefix) {
        Some(text) => {
            let owned = text.to_owned();
            proof {
                encode_utf8_decode_utf8(text@);
            }
            Some(owned)
        },
        None => None,
    }
}

/// No byte of the UTF-8 encoding of a nonzero scalar is zero.
proof fn lemma_encode_scalar_nonzero(c: u32)
    requires
        c != 0,
    ensures
        forall|i: int| 0 <= i < encode_scalar(c).len() ==> encode_scalar(c)[i] != 0,
{
    if has_width_1_encoding(c) {
        assert(((c & 0x7Fu32) as u8) != 0u8) by (bit_vector)
            requires
                c <= 0x7Fu32,
                c != 0u32,
        ;
    } else {
        assert((0xC0u8 | (((c >> 6u32) & 0x1Fu32) as u8)) != 0u8) by (bit_vector);
        assert((0xE0u8 | (((c >> 12u32) & 0x0Fu32) as u8)) != 0u8) by (bit_vector);
        assert((0xF0u8 | (((c >> 18u32) & 0x7u32) as u8)) != 0u8) by (bit_vector);
        assert((0x80u8 | ((c & 0x3Fu32) as u8)) != 0u8) by (bit_vector);
        assert((0x80u8 | (((c >> 6u32) & 0x3Fu32) as u8)) != 0u8) by (bit_vector);
        assert((0x80u8 | (((c >> 12u32) & 0x3Fu32) as u8)) != 0u8) by (bit_vector);
    }
}

/// The UTF-8 encoding of text without NUL characters holds no zero byte.
proof fn lemma_encode_utf8_nonzero(name: Seq<char>)
    requires
        forall|i: int| 0 <= i < name.len() ==> name[i] != '\0',
    ensures
        forall|i: int| 0 <= i < encode_utf8(name).len() ==> encode_utf8(name)[i] != 0,
    decreases name.len(),
{
    if name.len() > 0 {
        let rest = name.drop_first();
        assert(forall|i: int| 0 <= i < rest.len() ==> rest[i] == name[i + 1]);
        lemma_encode_utf8_nonzero(rest);
        assert(name[0] != '\0');
        assert((name[0] as u32) != 0) by {
            assert(('\0' as u32) == 0);
            if (name[0] as u32) == 0 {
                char_u32_cast(name[0], 0);
                char_u32_cast('\0', 0);
            }
        }
        lemma_encode_scalar_nonzero(name[0] as u32);
        let head = encode_scalar(name[0] as u32);
        let tail = encode_utf8(rest);
        assert(encode_utf8(name) == head + tail);
        assert forall|i: int| 0 <= i < encode_utf8(name).len() implies encode_utf8(name)[i] != 0 by {
            if i < head.len() {
                assert(encode_utf8(name)[i] == head[i]);
            } else {
                assert(encode_utf8(name)[i] == tail[i - head.len()]);
            }
        }
    }
}

/// A name without NUL characters, written as the driver writes it (its
/// UTF-8 bytes, a zero byte, then anything), is read back unchanged.
pub proof fn lemma_vk_string_round_trip(name: Seq<char>, padding: Seq<u8>)
    requires
        forall|i: int| 0 <= i < name.len() ==> name[i] != '\0',
    ensures
        vk_string_spec(encode_utf8(name) + seq![0u8] + padding) == Some(name),
{
    let bytes = encode_utf8(name);
    let raw = bytes + seq![0u8] + padding;
    let n = bytes.len() as int;
    lemma_encode_utf8_nonzero(name);
    assert(raw[n] == 0);
    assert forall|i: int| 0 <= i < n implies raw[i] != 0 by {
        assert(raw[i] == bytes[i]);
    }
    assert(is_first_nul(raw, n));
    let m = choose|m: int| is_first_nul(raw, m);
    if m < n {
        assert(raw[m] != 0);
    } else if m > n {
        assert(raw[n] != 0);
    }
    assert(raw.take(n) =~= bytes);
    encode_utf8_valid_utf8(name);
    encode_utf8_decode_utf8(name);
}

/// Some name of `available` is `name`.
pub open spec fn has_extension(available: Seq<String>, name: Seq<char>) -> bool {
    exists|i: int| 0 <= i < available.len() && available[i]@ == name
}

/// Every extension in `required` is among `available`.
pub open spec fn extensions_supported(available: Seq<String>, required: Seq<Seq<char>>) -> bool {
    forall|j: int| 0 <= j < required.len() ==> has_extension(available, #[trigger] required[j])
}

/// An array without a zero byte holds no name, and neither does one whose
/// bytes before the first zero byte are not valid UTF-8.
pub proof fn lemma_vk_string_none(raw: Seq<u8>)
    ensures
        (forall|i: int| 0 <= i < raw.len() ==> raw[i] != 0) ==> vk_string_spec(raw) is None,
        forall|n: int|
            0 <= n < raw.len() && raw[n] == 0 && (forall|i: int| 0 <= i < n ==> raw[i] != 0)
                && !valid_utf8(raw.take(n)) ==> vk_string_spec(raw) is None,
{
    if exists|n: int| is_first_nul(raw, n) {
        let m = choose|n: int| is_first_nul(raw, n);
        assert forall|n: int|
            0 <= n < raw.len() && raw[n] == 0 && (forall|i: int| 0 <= i < n ==> raw[i] != 0)
                implies n == m by {
            if n < m {
                assert(raw[n] != 0);
            } else if n > m {
                assert(raw[m] != 0);
            }
        }
    }
}

/// The device extensions are supported exactly when the swapchain extension's
/// name is among the names reported, wherever it stands in the list.
pub proof fn lemma_supported_iff_swapchain_listed(available: Seq<String>)
    ensures
        extensions_supported(available, required_device_extensions()) <==> exists|i: int|
            0 <= i < available.len() && available[i]@ == "VK_KHR_swapchain"@,
        extensions_supported(available, required_device_extensions()) <==> available.map_values(
            |s: String| s@,
        ).contains("VK_KHR_swapchain"@),
{
    let views = available.map_values(|s: String| s@);
    let name = "VK_KHR_swapchain"@;
    assert(required_device_extensions()[0] == name);
    if exists|i: int| 0 <= i < available.len() && available[i]@ == name {
        let i = choose|i: int| 0 <= i < available.len() && available[i]@ == name;
        assert(views[i] == name);
        assert(has_extension(available, required_device_extensions()[0]));
    }
    if views.contains(name) {
        let i = choose|i: int| 0 <= i < views.len() && views[i] == name;
        assert(available[i]@ == name);
    }
    if extensions_supported(available, required_device_extensions()) {
        assert(has_extension(available, required_device_extensions()[0]));
    }
}

/// A list holding the swapchain extension's name at any position, with any
/// names before and after it, is accepted.
pub proof fn lemma_swapchain_listed_anywhere(before: Seq<String>, name: String, after: Seq<String>)
    requires
        name@ == "VK_KHR_swapchain"@,
    ensures
        extensions_supported(before.push(name) + after, required_device_extensions()),
{
    let available = before.push(name) + after;
    assert(available[before.len() as int] == name);
    lemma_supported_iff_swapchain_listed(available);
}

/// Reporting more extensions never makes a supported device unsupported.
pub proof fn lemma_supported_monotone(available: Seq<String>, more: Seq<String>)
    requires
        extensions_supported(available, required_device_extensions()),
    ensures
        extensions_supported(available + more, required_device_extensions()),
        extensions_supported(more + available, required_device_extensions()),
{
    lemma_supported_iff_swapchain_listed(available);
    lemma_supported_iff_swapchain_listed(available + more);
    lemma_supported_iff_swapchain_listed(more + available);
    let i = choose|i: int| 0 <= i < available.len() && available[i]@ == "VK_KHR_swapchain"@;
    assert((available + more)[i] == available[i]);
    assert((more + available)[more.len() + i] == available[i]);
}

/// Whether every extension the renderer needs is among the names a device
/// reports.
pub fn check_device_extension_support(available_extension_names: &Vec<String>) -> (r: bool)
    ensures
        r == extensions_supported(available_extension_names@, required_device_extensions()),
        r <==> exists|i: int|
            0 <= i < available_extension_names@.len() && available_extension_names@[i]@
                == "VK_KHR_swapchain"@,
{
    proof {
        lemma_supported_iff_swapchain_listed(available_extension_names@);
    }
    let required = device_extensions();
    let count = required.names.len();
    let mut j: usize = 0;
    while j < count
        invariant
            j <= count,
            count == required.names@.len(),
            required.names@.len() == required_device_extensions().len(),
            forall|k: int|
                0 <= k < required.names@.len() ==> required.names@[k]@
                    == #[trigger] required_device_extensions()[k],
            forall|k: int|
                0 <= k < j ==> has_extension(
                    available_extension_names@,
                    #[trigger] required_device_extensions()[k],
                ),
        decreases count - j,
    {
        let wanted = required.names[j].to_owned();
        let mut found = false;
        let mut i: usize = 0;
        while i < available_extension_names.len()
            invariant
                i <= available_extension_names@.len(),
                wanted@ == required_device_extensions()[j as int],
                found == exists|k: int| 0 <= k < i && available_extension_names@[k]@ == wanted@,
            decreases available_extension_names@.len() - i,
        {
            if available_extension_names[i] == wanted {
                found = true;
            }
            i = i + 1;
        }
        if !found {
            assert(!has_extension(available_extension_names@, required_device_extensions()[j as int]));
            return false;
        }
        j = j + 1;
    }
    true
}

} // verus!
