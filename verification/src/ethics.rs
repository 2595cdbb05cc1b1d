//! The keyword blacklist filter.
//!
//! Content is lowercased and searched for each banned keyword in list order;
//! the first hit is reported. The lowercase transformation is the standard
//! library's; the substring search itself is verified character by character.

use vstd::prelude::*;
use vstd::string::StrSliceExecFns;

verus! {

/// The lowercase form of a character sequence, as `str::to_lowercase`
/// produces it: a pure function of the characters alone.
pub uninterp spec fn lower_of(s: Seq<char>) -> Seq<char>;

/// Relies on str::to_lowercase: the result depends on the characters alone.
#[verifier::external_body]
fn to_lowercase(s: &str) -> (r: String)
    ensures
        r@ == lower_of(s@),
{
    s.to_lowercase()
}

/// Whether `needle` occurs contiguously inside `hay`.
pub open spec fn contains_sub(hay: Seq<char>, needle: Seq<char>) -> bool {
    exists|k: int|
        0 <= k && k + needle.len() <= hay.len() && #[trigger] hay.subrange(
            k,
            k + needle.len() as int,
        ) == needle
}

/// The banned keywords, lowercase, in checking order.
pub open spec fn spec_blacklist() -> Seq<Seq<char>> {
    seq![
        "phản động"@,
        "khủng bố"@,
        "lật đổ"@,
        "bạo loạn"@,
        "ma túy"@,
        "đánh bạc"@,
        "cá độ"@,
        "vũ khí"@,
        "khiêu dâm"@,
        "lừa đảo"@,
    ]
}

/// The banned keywords as checkable strings.
fn blacklist_words() -> (r: Vec<&'static str>)
    ensures
        r@.len() == spec_blacklist().len(),
        forall|i: int| 0 <= i < r@.len() ==> (#[trigger] r@[i])@ == spec_blacklist()[i],
{
    let mut v: Vec<&'static str> = Vec::new();
    v.push("phản động");
    v.push("khủng bố");
    v.push("lật đổ");
    v.push("bạo loạn");
    v.push("ma túy");
    v.push("đánh bạc");
    v.push("cá độ");
    v.push("vũ khí");
    v.push("khiêu dâm");
    v.push("lừa đảo");
    v
}

/// Whether `needle` matches `hay` at offset `k`.
fn matches_at(hay: &str, needle: &str, k: usize) -> (r: bool)
    requires
        k + needle@.len() <= hay@.len(),
        hay@.len() <= usize::MAX,
    ensures
        r == (hay@.subrange(k as int, k as int + needle@.len() as int) == needle@),
{
    let nlen = needle.unicode_len();
    let mut j: usize = 0;
    while j < nlen
        invariant
            j <= nlen,
            nlen == needle@.len(),
            k + nlen <= hay@.len(),
            hay@.len() <= usize::MAX,
            forall|t: int| 0 <= t < j ==> hay@[k + t] == #[trigger] needle@[t],
        decreases nlen - j,
    {
        if hay.get_char(k + j) != needle.get_char(j) {
            proof {
                if hay@.subrange(k as int, k as int + needle@.len() as int) == needle@ {
                    assert(hay@.subrange(k as int, k as int + needle@.len() as int)[j as int]
                        == hay@[k + j]);
                }
            }
            return false;
        }
        j = j + 1;
    }
    proof {
        assert(hay@.subrange(k as int, k as int + needle@.len() as int) =~= needle@);
    }
    true
}

/// Verified substring search: true exactly when `needle` occurs in `hay`.
fn contains_str(hay: &str, needle: &str) -> (r: bool)
    ensures
        r == contains_sub(hay@, needle@),
{
    let hlen = hay.unicode_len();
    let nlen = needle.unicode_len();
    if nlen > hlen {
        return false;
    }
    if nlen == 0 {
        proof {
            assert(hay@.subrange(0, 0 + needle@.len() as int) =~= needle@);
        }
        return true;
    }
    let bound: usize = hlen - nlen;
    let mut k: usize = 0;
    while k <= bound
        invariant
            hlen == hay@.len(),
            nlen == needle@.len(),
            nlen <= hlen,
            1 <= nlen,
            bound == hlen - nlen,
            k <= bound + 1,
            hlen <= usize::MAX,
            forall|t: int|
                0 <= t < k ==> #[trigger] hay@.subrange(t, t + needle@.len() as int) != needle@,
        decreases hlen - k,
    {
        if matches_at(hay, needle, k) {
            proof {
                assert(contains_sub(hay@, needle@)) by {
                    assert(hay@.subrange(k as int, k as int + needle@.len() as int) == needle@);
                }
            }
            return true;
        }
        k = k + 1;
    }
    proof {
        assert forall|t: int|
            0 <= t && t + needle@.len() <= hay@.len() implies #[trigger] hay@.subrange(
            t,
            t + needle@.len() as int,
        ) != needle@ by {
            assert(t <= hay@.len() - needle@.len());
            assert(t < k);
        }
    }
    false
}

/// A banned keyword was found in the content.
#[derive(Clone, Debug)]
pub struct EthicsViolation {
    /// The keyword that matched.
    pub word: String,
}

/// The keyword blacklist content filter.
pub struct EthicsFilter;

impl EthicsFilter {
    /// Checks content against the blacklist: accepts exactly when no banned
    /// keyword occurs in the lowercased content, and otherwise reports the
    /// first keyword, in list order, that does.
    pub fn check(content: &str) -> (r: Result<(), EthicsViolation>)
        ensures
            match r {
                Ok(()) => forall|i: int|
                    0 <= i < spec_blacklist().len() ==> !contains_sub(
                        lower_of(content@),
                        #[trigger] spec_blacklist()[i],
                    ),
                Err(v) => exists|i: int|
                    {
                        &&& 0 <= i < spec_blacklist().len()
                        &&& v.word@ == #[trigger] spec_blacklist()[i]
                        &&& contains_sub(lower_of(content@), spec_blacklist()[i])
                        &&& forall|j: int|
                            0 <= j < i ==> !contains_sub(
                                lower_of(content@),
                                #[trigger] spec_blacklist()[j],
                            )
                    },
            },
    {
        let lowered = to_lowercase(content);
        let words = blacklist_words();
        let mut i: usize = 0;
        while i < words.len()
            invariant
                i <= words@.len(),
                words@.len() == spec_blacklist().len(),
                forall|t: int| 0 <= t < words@.len() ==> (#[trigger] words@[t])@
                    == spec_blacklist()[t],
                lowered@ == lower_of(content@),
                forall|j: int|
                    0 <= j < i ==> !contains_sub(lower_of(content@), #[trigger] spec_blacklist()[j]),
            decreases words@.len() - i,
        {
            let w = words[i];
            if contains_str(lowered.as_str(), w) {
                let word = w.to_owned();
                proof {
                    assert(word@ == spec_blacklist()[i as int]);
                }
                return Err(EthicsViolation { word });
            }
            i = i + 1;
        }
        Ok(())
    }
}

} // verus!
