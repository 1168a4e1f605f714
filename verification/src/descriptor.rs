//! Report descriptor parsing: finding the input report id.

use vstd::prelude::*;

verus! {

/// Leading byte of a Report ID item.
pub const REPORT_ID_TAG: u8 = 0x85;

/// Number of payload bytes that follow an item's leading byte. The low two
/// bits of the leading byte hold a size code; code 3 stands for four bytes.
pub open spec fn payload_len(lead: u8) -> int {
    let code = lead & 0x03;
    if code == 0 {
        0
    } else if code == 1 {
        1
    } else if code == 2 {
        2
    } else {
        4
    }
}

/// Size of a whole item: the leading byte and its payload.
pub open spec fn item_size(lead: u8) -> int {
    1 + payload_len(lead)
}

/// Number of bytes from position `at` to the end of a descriptor of `len`
/// bytes; 0 from the end onwards.
pub open spec fn bytes_left(len: nat, at: int) -> nat {
    if at < len {
        (len - at) as nat
    } else {
        0
    }
}

/// The report id found by scanning `desc` item by item from position `at`.
///
/// A Report ID item yields the byte that follows it, or 0 when the descriptor
/// ends right after the tag. Running off the end yields 0.
pub open spec fn scan_report_id(desc: Seq<u8>, at: int) -> u8
    decreases bytes_left(desc.len(), at),
{
    if at < 0 || at >= desc.len() {
        0
    } else if desc[at] == REPORT_ID_TAG {
        if at + 1 < desc.len() {
            desc[at + 1]
        } else {
            0
        }
    } else {
        scan_report_id(desc, at + item_size(desc[at]))
    }
}

/// The input report id that a report descriptor declares, 0 if it declares none.
pub open spec fn report_id_of(desc: Seq<u8>) -> u8 {
    scan_report_id(desc, 0)
}

/// Size in bytes of the item that starts with `lead`.
pub fn item_length(lead: u8) -> (n: usize)
    ensures
        n == item_size(lead),
        1 <= n <= 5,
{
    let code: u8 = lead & 0x03;
    if code == 0 {
        1
    } else if code == 1 {
        2
    } else if code == 2 {
        3
    } else {
        5
    }
}

/// Extracts the input report id from the bytes of a report descriptor.
pub fn get_report_id(desc: &[u8]) -> (id: u8)
    ensures
        id == report_id_of(desc@),
{
    let mut idx: usize = 0;
    while idx < desc.len()
        invariant
            idx <= desc.len(),
            scan_report_id(desc@, idx as int) == report_id_of(desc@),
        decreases desc.len() - idx,
    {
        let item: u8 = desc[idx];
        if item == REPORT_ID_TAG {
            if idx + 1 < desc.len() {
                return desc[idx + 1];
            }
            return 0;
        }
        let step: usize = item_length(item);
        if step >= desc.len() - idx {
            assert(scan_report_id(desc@, idx + step) == 0);
            return 0;
        }
        idx = idx + step;
    }
    0
}

/// Scanning a descriptor that holds no Report ID tag byte anywhere finds no
/// report id, whatever position the scan starts from.
pub proof fn lemma_scan_without_tag(desc: Seq<u8>, at: int)
    requires
        forall|i: int| 0 <= i < desc.len() ==> desc[i] != REPORT_ID_TAG,
    ensures
        scan_report_id(desc, at) == 0,
    decreases bytes_left(desc.len(), at),
{
    if 0 <= at < desc.len() {
        lemma_scan_without_tag(desc, at + item_size(desc[at]));
    }
}

/// A descriptor without any Report ID tag byte has report id 0.
pub proof fn lemma_no_tag_gives_zero(desc: Seq<u8>)
    requires
        forall|i: int| 0 <= i < desc.len() ==> desc[i] != REPORT_ID_TAG,
    ensures
        report_id_of(desc) == 0,
{
    lemma_scan_without_tag(desc, 0);
}

/// Scanning a descriptor whose only Report ID tag byte is its last byte finds
/// report id 0: the tag has no payload byte behind it.
pub proof fn lemma_scan_truncated_tag(desc: Seq<u8>, at: int)
    requires
        desc.len() > 0,
        desc[desc.len() - 1] == REPORT_ID_TAG,
        forall|i: int| 0 <= i < desc.len() - 1 ==> desc[i] != REPORT_ID_TAG,
    ensures
        scan_report_id(desc, at) == 0,
    decreases bytes_left(desc.len(), at),
{
    if 0 <= at < desc.len() - 1 {
        lemma_scan_truncated_tag(desc, at + item_size(desc[at]));
    }
}

/// A descriptor that ends in its only Report ID tag byte has report id 0.
pub proof fn lemma_truncated_tag_gives_zero(desc: Seq<u8>)
    requires
        desc.len() > 0,
        desc[desc.len() - 1] == REPORT_ID_TAG,
        forall|i: int| 0 <= i < desc.len() - 1 ==> desc[i] != REPORT_ID_TAG,
    ensures
        report_id_of(desc) == 0,
{
    lemma_scan_truncated_tag(desc, 0);
}

/// A descriptor that opens with a Report ID item declares the byte after the tag.
pub proof fn lemma_leading_tag(desc: Seq<u8>)
    requires
        desc.len() >= 2,
        desc[0] == REPORT_ID_TAG,
    ensures
        report_id_of(desc) == desc[1],
{
}

} // verus!
