//! Reading a cell's buffer offset out of a reader's rendering.
//!
//! `flexbuffers` keeps the offset a reader points at to itself; the one place
//! where it shows is the reader's `Debug` rendering, which ends in
//! `address: <decimal> }`. This module finds that field and reads the number.

use vstd::prelude::*;

verus! {

/// Length of the label `address: `.
pub const LABEL_LEN: usize = 9;

/// The bytes of the label `address: ` that precedes the offset.
pub open spec fn label() -> Seq<u8> {
    seq![0x61u8, 0x64u8, 0x64u8, 0x72u8, 0x65u8, 0x73u8, 0x73u8, 0x3au8, 0x20u8]
}

pub open spec fn is_digit(b: u8) -> bool {
    0x30 <= b <= 0x39
}

/// Whether the label stands in `text` at index `at`.
pub open spec fn label_at(text: Seq<u8>, at: int) -> bool {
    &&& 0 <= at
    &&& at + LABEL_LEN <= text.len()
    &&& forall|k: int| 0 <= k < LABEL_LEN ==> text[at + k] == #[trigger] label()[k]
}

/// The index just behind the first label at or after `from`, if there is one.
pub open spec fn after_label(text: Seq<u8>, from: int) -> Option<int>
    decreases text.len() - from,
{
    if from < 0 || from + LABEL_LEN > text.len() {
        None
    } else if label_at(text, from) {
        Some(from + LABEL_LEN)
    } else {
        after_label(text, from + 1)
    }
}

/// The number that the run of decimal digits starting at `from` writes, when
/// the digits before it have written `acc`.
pub open spec fn decimal(text: Seq<u8>, from: int, acc: nat) -> nat
    decreases text.len() - from,
{
    if 0 <= from < text.len() && is_digit(text[from]) {
        decimal(text, from + 1, acc * 10 + (text[from] - 0x30) as nat)
    } else {
        acc
    }
}

/// The offset that a rendering gives: the decimal number behind its first
/// `address: ` label. A rendering without the label, or with a number that no
/// `usize` holds, gives 0.
pub open spec fn address_in(text: Seq<u8>) -> usize {
    match after_label(text, 0) {
        Some(start) => {
            let n = decimal(text, start, 0);
            if n <= usize::MAX {
                n as usize
            } else {
                0
            }
        },
        None => 0,
    }
}

/// Reading more digits never makes the number smaller.
pub proof fn lemma_decimal_grows(text: Seq<u8>, from: int, acc: nat)
    ensures
        decimal(text, from, acc) >= acc,
    decreases text.len() - from,
{
    if 0 <= from < text.len() && is_digit(text[from]) {
        lemma_decimal_grows(text, from + 1, acc * 10 + (text[from] - 0x30) as nat);
    }
}

fn matches_label(text: &[u8], at: usize) -> (b: bool)
    requires
        at + LABEL_LEN <= text@.len() <= usize::MAX,
    ensures
        b == label_at(text@, at as int),
{
    let label: [u8; 9] = [0x61, 0x64, 0x64, 0x72, 0x65, 0x73, 0x73, 0x3a, 0x20];
    assert(label@ =~= self::label());
    let mut k: usize = 0;
    while k < LABEL_LEN
        invariant
            k <= LABEL_LEN,
            at + LABEL_LEN <= text@.len() <= usize::MAX,
            label@ == self::label(),
            forall|j: int| 0 <= j < k ==> text@[at + j] == #[trigger] self::label()[j],
        decreases LABEL_LEN - k,
    {
        if text[at + k] != label[k] {
            return false;
        }
        k += 1;
    }
    true
}

fn find_label(text: &[u8]) -> (found: Option<usize>)
    ensures
        match found {
            Some(start) => after_label(text@, 0) == Some(start as int) && start <= text@.len(),
            None => after_label(text@, 0) is None,
        },
{
    let mut from: usize = 0;
    while text.len() >= LABEL_LEN && from <= text.len() - LABEL_LEN
        invariant
            after_label(text@, 0) == after_label(text@, from as int),
            from <= text@.len(),
        decreases text@.len() - from,
    {
        if matches_label(text, from) {
            return Some(from + LABEL_LEN);
        }
        from += 1;
    }
    None
}

/// The offset written in a reader's rendering.
pub fn parse_address(text: &[u8]) -> (address: usize)
    ensures
        address == address_in(text@),
{
    let start = match find_label(text) {
        Some(start) => start,
        None => {
            return 0;
        },
    };
    let mut at: usize = start;
    let mut acc: usize = 0;
    while at < text.len() && 0x30 <= text[at] && text[at] <= 0x39
        invariant
            start <= at <= text@.len(),
            after_label(text@, 0) == Some(start as int),
            decimal(text@, start as int, 0) == decimal(text@, at as int, acc as nat),
        decreases text@.len() - at,
    {
        let digit: usize = (text[at] - 0x30) as usize;
        if acc > (usize::MAX - digit) / 10 {
            proof {
                let next = acc as nat * 10 + digit as nat;
                assert(next > usize::MAX);
                assert(decimal(text@, at as int, acc as nat) == decimal(text@, at + 1, next));
                lemma_decimal_grows(text@, at + 1, next);
            }
            return 0;
        }
        acc = acc * 10 + digit;
        at += 1;
    }
    acc
}

} // verus!
