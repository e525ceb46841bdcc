//! What the core reads of an inbound request.
use vstd::prelude::*;
use vstd::string::*;

verus! {

/// An inbound request as the dispatcher hands it over: the method, the path,
/// the query string, and each header with its value where that value is text.
pub struct HttpRequest {
    pub method: String,
    pub path: String,
    pub query: Option<String>,
    pub headers: Vec<(String, Option<String>)>,
}

/// A header as the contracts see it: name, and value where it is text.
pub type HeaderView = (Seq<char>, Option<Seq<char>>);

pub open spec fn lower_code(c: char) -> int {
    if 65 <= (c as u32) && (c as u32) <= 90 {
        (c as u32) + 32
    } else {
        (c as u32) as int
    }
}

/// Header names compare without regard to ASCII case.
pub open spec fn names_match(a: Seq<char>, b: Seq<char>) -> bool {
    a.len() == b.len() && forall|i: int| 0 <= i < a.len() ==> lower_code(#[trigger] a[i]) == lower_code(b[i])
}

/// The first header named `name`: `None` where there is none, else its value.
pub open spec fn header_lookup(h: Seq<HeaderView>, name: Seq<char>) -> Option<Option<Seq<char>>>
    decreases h.len(),
{
    if h.len() == 0 {
        None
    } else if names_match(h[0].0, name) {
        Some(h[0].1)
    } else {
        header_lookup(h.skip(1), name)
    }
}

impl HttpRequest {
    pub open spec fn header_views(&self) -> Seq<HeaderView> {
        self.headers@.map_values(|p: (String, Option<String>)| (p.0@, match p.1 {
            Some(v) => Some(v@),
            None => None,
        }))
    }

    /// The value of the first header named `name`; `Some(None)` where that
    /// header is present but its value is not text.
    pub fn header(&self, name: &str) -> (r: Option<Option<String>>)
        ensures
            match r {
                None => header_lookup(self.header_views(), name@) is None,
                Some(None) => header_lookup(self.header_views(), name@) == Some(
                    None::<Seq<char>>,
                ),
                Some(Some(v)) => header_lookup(self.header_views(), name@) == Some(Some(v@)),
            },
    {
        let ghost hv = self.header_views();
        let mut i: usize = 0;
        assert(hv.skip(0) =~= hv);
        while i < self.headers.len()
            invariant
                i <= self.headers@.len(),
                hv == self.header_views(),
                header_lookup(hv, name@) == header_lookup(hv.skip(i as int), name@),
            decreases self.headers.len() - i,
        {
            assert(hv.skip(i as int).skip(1) =~= hv.skip(i + 1));
            assert(hv.skip(i as int)[0] == hv[i as int]);
            if names_equal(self.headers[i].0.as_str(), name) {
                return match &self.headers[i].1 {
                    Some(v) => Some(Some(v.clone())),
                    None => Some(None),
                };
            }
            i = i + 1;
        }
        None
    }
}

pub fn lower_code_of(c: char) -> (r: u32)
    ensures
        r == lower_code(c),
{
    let u = c as u32;
    if 65 <= u && u <= 90 {
        u + 32
    } else {
        u
    }
}

/// Compares two header names without regard to ASCII case.
pub fn names_equal(a: &str, b: &str) -> (r: bool)
    ensures
        r == names_match(a@, b@),
{
    let n = a.unicode_len();
    if n != b.unicode_len() {
        return false;
    }
    let mut i: usize = 0;
    while i < n
        invariant
            i <= n,
            n == a@.len(),
            n == b@.len(),
            forall|j: int| 0 <= j < i ==> lower_code(#[trigger] a@[j]) == lower_code(b@[j]),
        decreases n - i,
    {
        if lower_code_of(a.get_char(i)) != lower_code_of(b.get_char(i)) {
            return false;
        }
        i = i + 1;
    }
    true
}

} // verus!
