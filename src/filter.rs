//! Recognising display-attached (HDMI) output endpoints by name or id.
use vstd::prelude::*;

verus! {

/// What `str::to_lowercase` makes of a string.
pub uninterp spec fn lower_of(s: Seq<char>) -> Seq<char>;

/// Relies on `str::to_lowercase`: the result depends on the characters of
/// `s` alone.
#[verifier::external_body]
fn lowercase(s: &str) -> (r: String)
    ensures
        r@ == lower_of(s@),
{
    s.to_lowercase()
}

/// `needle` occurs in `hay` as a contiguous run.
pub open spec fn contains_seq(hay: Seq<char>, needle: Seq<char>) -> bool {
    exists|i: int|
        0 <= i && i + needle.len() <= hay.len() && #[trigger] hay.subrange(i, i + needle.len())
            == needle
}

/// Name fragments of display-attached audio endpoints, in lower case.
pub open spec fn hdmi_keywords() -> Seq<Seq<char>> {
    seq![
        "hdmi"@,
        "nvidia high definition audio"@,
        "intel display audio"@,
        "amd high definition audio"@,
        "display audio"@,
    ]
}

/// A lower-case endpoint name holds one of the keywords.
pub open spec fn is_hdmi_name(lower: Seq<char>) -> bool {
    exists|k: int| 0 <= k < hdmi_keywords().len() && contains_seq(lower, #[trigger] hdmi_keywords()[k])
}

/// A lower-case endpoint id mentions "hdmi" or "display".
pub open spec fn is_hdmi_id(lower: Seq<char>) -> bool {
    contains_seq(lower, "hdmi"@) || contains_seq(lower, "display"@)
}

/// The characters of `s`.
pub(crate) fn chars_of(s: &str) -> (r: Vec<char>)
    ensures
        r@ == s@,
{
    let n = s.unicode_len();
    let mut out: Vec<char> = Vec::new();
    let mut i: usize = 0;
    while i < n
        invariant
            n == s@.len(),
            0 <= i <= n,
            out@ == s@.subrange(0, i as int),
        decreases n - i,
    {
        out.push(s.get_char(i));
        i = i + 1;
        assert(out@ =~= s@.subrange(0, i as int));
    }
    assert(out@ =~= s@);
    out
}

/// `needle` occurs in `hay`.
pub(crate) fn contains_chars(hay: &Vec<char>, needle: &Vec<char>) -> (r: bool)
    ensures
        r == contains_seq(hay@, needle@),
{
    let n = hay.len();
    let m = needle.len();
    if m > n {
        return false;
    }
    let mut i: usize = 0;
    while i <= n - m
        invariant
            m <= n,
            n == hay@.len(),
            m == needle@.len(),
            0 <= i <= n - m + 1,
            forall|p: int| 0 <= p < i ==> #[trigger] hay@.subrange(p, p + m) != needle@,
        decreases n - m + 1 - i,
    {
        let mut j: usize = 0;
        while j < m && hay[i + j] == needle[j]
            invariant
                0 <= i <= n - m,
                m <= n,
                n == hay@.len(),
                m == needle@.len(),
                0 <= j <= m,
                forall|q: int| 0 <= q < j ==> hay@[i + q] == needle@[q],
            decreases m - j,
        {
            j = j + 1;
        }
        if j == m {
            assert(hay@.subrange(i as int, i + m) =~= needle@);
            return true;
        }
        assert(hay@.subrange(i as int, i + m)[j as int] != needle@[j as int]);
        i = i + 1;
    }
    proof {
        if contains_seq(hay@, needle@) {
            let p = choose|p: int|
                0 <= p && p + needle@.len() <= hay@.len() && #[trigger] hay@.subrange(
                    p,
                    p + needle@.len(),
                ) == needle@;
            assert(hay@.subrange(p, p + m) != needle@);
        }
    }
    false
}

/// Classifies endpoints as display-attached.
pub struct HdmiFilter;

impl HdmiFilter {
    /// The lower-case endpoint name `lower` holds one of the keywords.
    pub fn is_hdmi_name_lowercase(lower: &str) -> (r: bool)
        ensures
            r == is_hdmi_name(lower@),
    {
        let hay = chars_of(lower);
        let keywords: [&str; 5] = [
            "hdmi",
            "nvidia high definition audio",
            "intel display audio",
            "amd high definition audio",
            "display audio",
        ];
        proof {
            assert(keywords@.len() == 5);
        }
        let mut k: usize = 0;
        while k < 5
            invariant
                0 <= k <= 5,
                hay@ == lower@,
                keywords@.len() == 5,
                forall|q: int| 0 <= q < 5 ==> (#[trigger] keywords@[q])@ == hdmi_keywords()[q],
                forall|q: int| 0 <= q < k ==> !contains_seq(lower@, #[trigger] hdmi_keywords()[q]),
            decreases 5 - k,
        {
            let needle = chars_of(keywords[k]);
            if contains_chars(&hay, &needle) {
                return true;
            }
            k = k + 1;
        }
        false
    }

    /// The lower-case endpoint id `lower` mentions "hdmi" or "display".
    pub fn is_hdmi_id_lowercase(lower: &str) -> (r: bool)
        ensures
            r == is_hdmi_id(lower@),
    {
        let hay = chars_of(lower);
        contains_chars(&hay, &chars_of("hdmi")) || contains_chars(&hay, &chars_of("display"))
    }

    /// The endpoint name `name`, in lower case, holds one of the keywords.
    pub fn is_hdmi_device(name: &str) -> (r: bool)
        ensures
            r == is_hdmi_name(lower_of(name@)),
    {
        let lower = lowercase(name);
        HdmiFilter::is_hdmi_name_lowercase(lower.as_str())
    }

    /// The endpoint id `device_id`, in lower case, mentions "hdmi" or
    /// "display".
    pub fn is_hdmi_device_id(device_id: &str) -> (r: bool)
        ensures
            r == is_hdmi_id(lower_of(device_id@)),
    {
        let lower = lowercase(device_id);
        HdmiFilter::is_hdmi_id_lowercase(lower.as_str())
    }
}

} // verus!
