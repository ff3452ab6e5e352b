//! The characters that end a word when a word is selected by pointing at
//! it: ASCII and CJK punctuation, brackets, quotation marks and whitespace.
use vstd::prelude::*;

verus! {

/// The splitter characters, in increasing code point order.
#[verifier::opaque]
pub open spec fn splitters() -> Seq<char> {
    seq!['\t', ' ', '#', '%', '&', '(', ')', '+', ',', '-', '.', '/', ';', '<', '=', '>', '?', '@', '[', '\\', ']', '_', '{', '}', '~', '—', '‘', '’', '“', '”', '…', '─', 'ⸯ', '　', '、', '。', '〈', '〉', '《', '》', '「', '」', '『', '』', '【', '】', '〔', '〕', '〖', '〗', '︗', '︘', '︙', '︱', '︵', '︶', '︷', '︸', '︹', '︺', '︻', '︼', '︽', '︾', '︿', '﹀', '﹁', '﹂', '﹃', '﹄', '！', '＃', '％', '＆', '（', '）', '＊', '＋', '，', '－', '／', '：', '；', '＝', '？', '［', '］', '｀', '｛', '｜', '｝', '～']
}

pub open spec fn is_splitter(c: char) -> bool {
    splitters().contains(c)
}

/// The first `k + 1` characters of `s` are in strictly increasing order.
pub open spec fn ascending_upto(s: Seq<char>, k: int) -> bool
    decreases k,
{
    k <= 0 || ((s[k - 1] as u32) < (s[k] as u32) && ascending_upto(s, k - 1))
}

proof fn lemma_ascending(s: Seq<char>, k: int)
    requires
        0 <= k < s.len(),
        ascending_upto(s, k),
    ensures
        forall|i: int, j: int| 0 <= i < j <= k ==> (s[i] as u32) < (s[j] as u32),
    decreases k,
{
    if k > 0 {
        lemma_ascending(s, k - 1);
    }
}

/// The splitter table is sorted, which binary search relies on.
pub proof fn lemma_splitters_sorted()
    ensures
        splitters().len() == 92,
        forall|i: int, j: int|
            0 <= i < j < 92 ==> (#[trigger] splitters()[i] as u32) < (#[trigger] splitters()[j] as u32),
{
    reveal(splitters);
    reveal_with_fuel(ascending_upto, 92);
    assert(ascending_upto(splitters(), 91));
    lemma_ascending(splitters(), 91);
}

fn splitter_table() -> (r: [char; 92])
    ensures
        r@ == splitters(),
{
    reveal(splitters);
    ['\t', ' ', '#', '%', '&', '(', ')', '+', ',', '-', '.', '/', ';', '<', '=', '>', '?', '@', '[', '\\', ']', '_', '{', '}', '~', '—', '‘', '’', '“', '”', '…', '─', 'ⸯ', '　', '、', '。', '〈', '〉', '《', '》', '「', '」', '『', '』', '【', '】', '〔', '〕', '〖', '〗', '︗', '︘', '︙', '︱', '︵', '︶', '︷', '︸', '︹', '︺', '︻', '︼', '︽', '︾', '︿', '﹀', '﹁', '﹂', '﹃', '﹄', '！', '＃', '％', '＆', '（', '）', '＊', '＋', '，', '－', '／', '：', '；', '＝', '？', '［', '］', '｀', '｛', '｜', '｝', '～']
}

/// Whether `c` ends a word; a binary search over the sorted table.
pub fn is_splitter_char(c: char) -> (r: bool)
    ensures
        r == is_splitter(c),
{
    let table = splitter_table();
    proof {
        lemma_splitters_sorted();
    }
    let key = c as u32;
    let mut lo: usize = 0;
    let mut hi: usize = 92;
    while lo < hi
        invariant
            0 <= lo <= hi <= 92,
            table@ == splitters(),
            key == c as u32,
            forall|i: int, j: int|
                0 <= i < j < 92 ==> (#[trigger] table@[i] as u32) < (#[trigger] table@[j] as u32),
            forall|i: int| 0 <= i < lo ==> (table@[i] as u32) < key,
            forall|i: int| hi <= i < 92 ==> (table@[i] as u32) > key,
        decreases hi - lo,
    {
        let mid = lo + (hi - lo) / 2;
        let m = table[mid] as u32;
        if m == key {
            proof {
                vstd::utf8::char_u32_cast(table@[mid as int], key);
                vstd::utf8::char_u32_cast(c, key);
            }
            assert(splitters()[mid as int] == c);
            return true;
        } else if m < key {
            lo = mid + 1;
        } else {
            hi = mid;
        }
    }
    assert(!splitters().contains(c)) by {
        if splitters().contains(c) {
            let k = choose|k: int| 0 <= k < splitters().len() && splitters()[k] == c;
            assert((table@[k] as u32) == key);
            assert(lo <= k < hi);
        }
    }
    false
}

} // verus!
