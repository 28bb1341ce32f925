//! Path normalization for deployment under a subpath, and the listen
//! address string: small string plumbing around the configuration, written
//! out and verified character by character.

use vstd::prelude::*;
use vstd::string::*;

verus! {

use crate::schema::ServerConf;

/// The sequence with its leading slashes removed.
pub open spec fn strip_leading(s: Seq<char>) -> Seq<char>
    decreases s.len(),
{
    if s.len() > 0 && s[0] == '/' {
        strip_leading(s.subrange(1, s.len() as int))
    } else {
        s
    }
}

/// The sequence with its trailing slashes removed.
pub open spec fn strip_trailing(s: Seq<char>) -> Seq<char>
    decreases s.len(),
{
    if s.len() > 0 && s.last() == '/' {
        strip_trailing(s.drop_last())
    } else {
        s
    }
}

/// The path fragment: leading slashes removed, nothing if no fragment
/// remains. `"/dir/"` captures `"dir/"`; `"//"` captures nothing.
pub open spec fn spec_capture_subpath(s: Seq<char>) -> Option<Seq<char>> {
    let t = strip_leading(s);
    if t.len() == 0 {
        None
    } else {
        Some(t)
    }
}

/// The base directory fragment: leading and trailing slashes removed,
/// nothing if no fragment remains. `"//dir//"` captures `"dir"`.
pub open spec fn spec_capture_basedir(s: Seq<char>) -> Option<Seq<char>> {
    let t = strip_trailing(strip_leading(s));
    if t.len() == 0 {
        None
    } else {
        Some(t)
    }
}

proof fn lemma_strip_leading(s: Seq<char>, i: int)
    requires
        0 <= i <= s.len(),
        forall|j: int| 0 <= j < i ==> s[j] == '/',
        i < s.len() ==> s[i] != '/',
    ensures
        strip_leading(s) == s.subrange(i, s.len() as int),
    decreases i,
{
    if i == 0 {
        assert(s.subrange(0, s.len() as int) =~= s);
    } else {
        let rest = s.subrange(1, s.len() as int);
        lemma_strip_leading(rest, i - 1);
        assert(rest.subrange(i - 1, rest.len() as int) =~= s.subrange(i, s.len() as int));
    }
}

proof fn lemma_strip_trailing(s: Seq<char>, j: int)
    requires
        0 <= j <= s.len(),
        forall|k: int| j <= k < s.len() ==> s[k] == '/',
        j > 0 ==> s[j - 1] != '/',
    ensures
        strip_trailing(s) == s.subrange(0, j),
    decreases s.len(),
{
    if j == s.len() {
        assert(s.subrange(0, j) =~= s);
    } else {
        let prefix = s.drop_last();
        lemma_strip_trailing(prefix, j);
        assert(prefix.subrange(0, j) =~= s.subrange(0, j));
    }
}

/// The count of leading slash characters.
fn first_non_slash(s: &str) -> (i: usize)
    ensures
        i <= s@.len(),
        forall|j: int| 0 <= j < i ==> s@[j] == '/',
        i < s@.len() ==> s@[i as int] != '/',
{
    let len = s.unicode_len();
    let mut i: usize = 0;
    while i < len && s.get_char(i) == '/'
        invariant
            i <= len,
            len == s@.len(),
            forall|j: int| 0 <= j < i ==> s@[j] == '/',
        decreases len - i,
    {
        i += 1;
    }
    i
}

/// Captures the path fragment of `path`: the text after any leading
/// slashes, or nothing when only slashes (or nothing) remain.
pub fn capture_subpath(path: &str) -> (r: Option<&str>)
    ensures
        match r {
            Some(t) => spec_capture_subpath(path@) == Some(t@),
            None => spec_capture_subpath(path@) is None,
        },
{
    let len = path.unicode_len();
    let i = first_non_slash(path);
    proof {
        lemma_strip_leading(path@, i as int);
    }
    if i == len {
        None
    } else {
        Some(path.substring_char(i, len))
    }
}

/// Captures the base directory fragment of `path`: the text between any
/// leading and trailing slashes, or nothing when no text remains.
pub fn capture_basedir(path: &str) -> (r: Option<&str>)
    ensures
        match r {
            Some(t) => spec_capture_basedir(path@) == Some(t@),
            None => spec_capture_basedir(path@) is None,
        },
{
    let len = path.unicode_len();
    let i = first_non_slash(path);
    proof {
        lemma_strip_leading(path@, i as int);
    }
    if i == len {
        proof {
            assert(strip_trailing(strip_leading(path@)).len() == 0);
        }
        return None;
    }
    let mut j: usize = len;
    while j > i + 1 && path.get_char(j - 1) == '/'
        invariant
            i < j <= len,
            len == path@.len(),
            i < len,
            path@[i as int] != '/',
            forall|k: int| j <= k < len ==> path@[k] == '/',
        decreases j,
    {
        j -= 1;
    }
    let ghost t = strip_leading(path@);
    proof {
        assert(t == path@.subrange(i as int, len as int));
        assert(j > i + 1 ==> path@[j - 1] != '/');
        assert(j == i + 1 ==> path@[j - 1] != '/');
        assert forall|k: int| j - i <= k < t.len() implies t[k] == '/' by {
            assert(t[k] == path@[i + k]);
        }
        assert(t[j - i - 1] == path@[j - 1]);
        lemma_strip_trailing(t, j - i);
        assert(t.subrange(0, j - i) =~= path@.subrange(i as int, j as int));
    }
    Some(path.substring_char(i, j))
}

/// The configured base directory as an abstract value.
pub open spec fn basedir_view(c: ServerConf) -> Option<Seq<char>> {
    match c.basedir {
        Some(s) => Some(s@),
        None => None,
    }
}

/// The absolute path for `path`: rooted at `/`, under the captured base
/// directory — the configured one when present, else the given default.
pub open spec fn spec_abs_path_with_default(
    configured: Option<Seq<char>>,
    path: Seq<char>,
    default_basedir: Seq<char>,
) -> Seq<char> {
    let src = match configured {
        Some(s) => s,
        None => default_basedir,
    };
    let sub = match spec_capture_subpath(path) {
        Some(p) => p,
        None => Seq::empty(),
    };
    match spec_capture_basedir(src) {
        Some(b) => seq!['/'] + b + seq!['/'] + sub,
        None => seq!['/'] + sub,
    }
}

/// Normalizes `path` to an absolute path under the configured base
/// directory, or under `default_basedir` when none is configured.
pub fn abs_path_with_default(conf: &ServerConf, path: &str, default_basedir: &str) -> (r: String)
    ensures
        r@ == spec_abs_path_with_default(basedir_view(*conf), path@, default_basedir@),
{
    let basedir_src: &str = match &conf.basedir {
        Some(s) => s.as_str(),
        None => default_basedir,
    };
    let basedir = capture_basedir(basedir_src);
    let subpath: &str = match capture_subpath(path) {
        Some(p) => p,
        None => "",
    };
    proof {
        reveal_strlit("");
        reveal_strlit("/");
        assert("/"@ =~= seq!['/']);
        assert(""@ =~= Seq::<char>::empty());
    }
    let mut r = String::new();
    r.append("/");
    match basedir {
        Some(b) => {
            r.append(b);
            r.append("/");
        },
        None => (),
    }
    r.append(subpath);
    proof {
        assert(r@ =~= spec_abs_path_with_default(basedir_view(*conf), path@, default_basedir@));
    }
    r
}

/// Normalizes `path` to an absolute path under the configured base
/// directory, or directly under the root when none is configured.
pub fn abs_path(conf: &ServerConf, path: &str) -> (r: String)
    ensures
        r@ == spec_abs_path_with_default(basedir_view(*conf), path@, Seq::empty()),
{
    let r = abs_path_with_default(conf, path, "");
    proof {
        reveal_strlit("");
        assert(""@ =~= Seq::<char>::empty());
    }
    r
}

/// The decimal digit `d` as a character.
pub open spec fn digit_char(d: nat) -> char {
    if d == 0 {
        '0'
    } else if d == 1 {
        '1'
    } else if d == 2 {
        '2'
    } else if d == 3 {
        '3'
    } else if d == 4 {
        '4'
    } else if d == 5 {
        '5'
    } else if d == 6 {
        '6'
    } else if d == 7 {
        '7'
    } else if d == 8 {
        '8'
    } else {
        '9'
    }
}

/// The decimal digits of `n`, most significant first.
pub open spec fn spec_decimal(n: nat) -> Seq<char>
    decreases n,
{
    if n < 10 {
        seq![digit_char(n)]
    } else {
        spec_decimal(n / 10) + seq![digit_char(n % 10)]
    }
}

fn push_digit(out: &mut String, d: u16)
    requires
        d < 10,
    ensures
        final(out)@ == old(out)@ + seq![digit_char(d as nat)],
{
    match d {
        0 => {
            proof {
                reveal_strlit("0");
                assert("0"@ =~= seq!['0']);
            }
            out.append("0");
        },
        1 => {
            proof {
                reveal_strlit("1");
                assert("1"@ =~= seq!['1']);
            }
            out.append("1");
        },
        2 => {
            proof {
                reveal_strlit("2");
                assert("2"@ =~= seq!['2']);
            }
            out.append("2");
        },
        3 => {
            proof {
                reveal_strlit("3");
                assert("3"@ =~= seq!['3']);
            }
            out.append("3");
        },
        4 => {
            proof {
                reveal_strlit("4");
                assert("4"@ =~= seq!['4']);
            }
            out.append("4");
        },
        5 => {
            proof {
                reveal_strlit("5");
                assert("5"@ =~= seq!['5']);
            }
            out.append("5");
        },
        6 => {
            proof {
                reveal_strlit("6");
                assert("6"@ =~= seq!['6']);
            }
            out.append("6");
        },
        7 => {
            proof {
                reveal_strlit("7");
                assert("7"@ =~= seq!['7']);
            }
            out.append("7");
        },
        8 => {
            proof {
                reveal_strlit("8");
                assert("8"@ =~= seq!['8']);
            }
            out.append("8");
        },
        _ => {
            proof {
                reveal_strlit("9");
                assert("9"@ =~= seq!['9']);
            }
            out.append("9");
        },
    }
}

fn push_decimal(out: &mut String, n: u16)
    ensures
        final(out)@ == old(out)@ + spec_decimal(n as nat),
    decreases n,
{
    if n >= 10 {
        push_decimal(out, n / 10);
        push_digit(out, n % 10);
        proof {
            assert(final(out)@ =~= old(out)@ + spec_decimal(n as nat));
        }
    } else {
        push_digit(out, n);
    }
}

/// The listen address as `host:port`, the form a socket address is parsed
/// from at startup.
pub fn bind_addr(conf: &ServerConf) -> (r: String)
    ensures
        r@ == conf.host@ + seq![':'] + spec_decimal(conf.port as nat),
{
    let mut r = String::new();
    r.append(conf.host.as_str());
    proof {
        reveal_strlit(":");
        assert(":"@ =~= seq![':']);
    }
    r.append(":");
    push_decimal(&mut r, conf.port);
    proof {
        assert(r@ =~= conf.host@ + seq![':'] + spec_decimal(conf.port as nat));
    }
    r
}

} // verus!
