//! Names: the identifier check of the ECMAScript AST crate, the local names
//! given to imported modules, and the keys of exported bindings.
use vstd::prelude::*;

verus! {

/// The outcome of `swc_ecma_ast::Ident::verify_symbol` on a string: `Ok(())`
/// where the string is a valid identifier that is not a reserved word, else
/// `Err` with a valid identifier derived from it.
pub uninterp spec fn verified_symbol(s: Seq<char>) -> Result<(), Seq<char>>;

/// Calls `swc_ecma_ast::Ident::verify_symbol`.
///
/// Trusted: its result is `verified_symbol` of the argument.  Its source shows
/// that `Ok` needs a non-empty string and that an `Err` holds a non-empty name;
/// the validity rules themselves (reserved words, Unicode identifier classes)
/// are not stated.
#[verifier::external_body]
pub(crate) fn verify_symbol(s: &str) -> (r: Result<(), String>)
    ensures
        match r {
            Ok(()) => verified_symbol(s@) == Ok::<(), Seq<char>>(()),
            Err(e) => verified_symbol(s@) == Err::<(), Seq<char>>(e@),
        },
        r is Ok ==> s@.len() > 0,
        r matches Err(e) ==> e@.len() > 0,
{
    swc_ecma_ast::Ident::verify_symbol(s)
}

/// The part of `s` after its last `/` (all of `s` where it has none).
pub open spec fn last_segment(s: Seq<char>) -> Seq<char>
    decreases s.len(),
{
    if s.len() == 0 {
        s
    } else if s.last() == '/' {
        Seq::empty()
    } else {
        last_segment(s.drop_last()).push(s.last())
    }
}

pub open spec fn has_suffix(s: Seq<char>, suffix: Seq<char>) -> bool {
    s.len() >= suffix.len() && s.skip(s.len() - suffix.len()) == suffix
}

/// `s` without a final `.js`, else without a final `.mjs`.
pub open spec fn strip_js_extension(s: Seq<char>) -> Seq<char> {
    if has_suffix(s, ".js"@) {
        s.take(s.len() - 3)
    } else if has_suffix(s, ".mjs"@) {
        s.take(s.len() - 4)
    } else {
        s
    }
}

/// The local name under which the exports of the module `src` are bound.
/// Its stem is the last path segment of `src` without its `.js`/`.mjs`
/// extension.  A stem that is a valid identifier is always prefixed with `_`
/// (so `_foo` becomes `__foo`); otherwise the identifier that the check
/// derives from the stem is taken, prefixed with `_` unless it already
/// starts with one.
pub open spec fn local_name_of(src: Seq<char>) -> Seq<char> {
    let stem = strip_js_extension(last_segment(src));
    let id = match verified_symbol(stem) {
        Ok(()) => seq!['_'] + stem,
        Err(e) => e,
    };
    if id.len() > 0 && id[0] == '_' {
        id
    } else {
        seq!['_'] + id
    }
}

proof fn lemma_last_segment_split(s: Seq<char>, i: int)
    requires
        0 <= i <= s.len(),
        i == 0 || s[i - 1] == '/',
        forall|j: int| i <= j < s.len() ==> s[j] != '/',
    ensures
        last_segment(s) == s.skip(i),
    decreases s.len(),
{
    if s.len() == 0 {
    } else if i == s.len() {
        assert(s.skip(i) =~= Seq::<char>::empty());
    } else {
        lemma_last_segment_split(s.drop_last(), i);
        assert(s.skip(i) =~= s.drop_last().skip(i).push(s.last()));
    }
}

/// The local name for the module `src` (see [`local_name_of`]).
pub fn local_name_for_src(src: &str) -> (r: String)
    ensures
        r@ == local_name_of(src@),
{
    let n = src.unicode_len();
    // find the start of the last segment
    let mut i: usize = n;
    while i > 0
        invariant
            i <= n,
            n == src@.len(),
            forall|j: int| i <= j < n ==> src@[j] != '/',
        ensures
            i <= n,
            i == 0 || src@[i - 1] == '/',
            forall|j: int| i <= j < n ==> src@[j] != '/',
        decreases i,
    {
        if src.get_char(i - 1) == '/' {
            break;
        }
        i = i - 1;
    }
    proof {
        lemma_last_segment_split(src@, i as int);
    }
    let seg = src.substring_char(i, n);
    let m = seg.unicode_len();
    let stem: &str = if m >= 3 && seg.get_char(m - 3) == '.' && seg.get_char(m - 2) == 'j'
        && seg.get_char(m - 1) == 's' {
        proof {
            reveal_strlit(".js");
            assert(seg@.skip(m - 3) =~= ".js"@);
        }
        seg.substring_char(0, m - 3)
    } else if m >= 4 && seg.get_char(m - 4) == '.' && seg.get_char(m - 3) == 'm' && seg.get_char(
        m - 2,
    ) == 'j' && seg.get_char(m - 1) == 's' {
        proof {
            reveal_strlit(".js");
            reveal_strlit(".mjs");
            assert(seg@.skip(m - 4) =~= ".mjs"@);
            if seg@.skip(m - 3) == ".js"@ {
                assert(seg@.skip(m - 3)[0] == seg@[m - 3]);
            }
        }
        seg.substring_char(0, m - 4)
    } else {
        proof {
            reveal_strlit(".js");
            reveal_strlit(".mjs");
            if m >= 3 && seg@.skip(m - 3) == ".js"@ {
                assert(seg@.skip(m - 3)[0] == seg@[m - 3]);
                assert(seg@.skip(m - 3)[1] == seg@[m - 2]);
                assert(seg@.skip(m - 3)[2] == seg@[m - 1]);
            }
            if m >= 4 && seg@.skip(m - 4) == ".mjs"@ {
                assert(seg@.skip(m - 4)[0] == seg@[m - 4]);
                assert(seg@.skip(m - 4)[1] == seg@[m - 3]);
                assert(seg@.skip(m - 4)[2] == seg@[m - 2]);
                assert(seg@.skip(m - 4)[3] == seg@[m - 1]);
            }
        }
        seg
    };
    assert(stem@ == strip_js_extension(seg@));
    let id: String = match verify_symbol(stem) {
        Ok(()) => {
            let s = "_".to_string();
            let r = s.concat(stem);
            proof {
                reveal_strlit("_");
            }
            r
        },
        Err(e) => e,
    };
    let starts_with_underscore = id.as_str().unicode_len() > 0 && id.as_str().get_char(0) == '_';
    if starts_with_underscore {
        id
    } else {
        let s = "_".to_string();
        proof {
            reveal_strlit("_");
        }
        s.concat(id.as_str())
    }
}

/// The key of an exported binding: its name and, for an identifier, its
/// syntax context.
pub struct ExportKey {
    pub sym: String,
    pub ctxt: Option<u32>,
}

impl View for ExportKey {
    type V = (Seq<char>, Option<u32>);

    open spec fn view(&self) -> (Seq<char>, Option<u32>) {
        (self.sym@, self.ctxt)
    }
}

/// Whether `actually` names the binding `expected`: the names are equal and
/// either both have a syntax context and they are equal, or neither has one.
pub fn is_eq_sym(actually: &ExportKey, expected: &ExportKey) -> (r: bool)
    ensures
        r == (actually@ == expected@),
{
    match (actually.ctxt, expected.ctxt) {
        (Some(a), Some(e)) => a == e && expected.sym == actually.sym,
        (Some(_), None) => false,
        (None, Some(_)) => false,
        (None, None) => expected.sym == actually.sym,
    }
}

} // verus!
