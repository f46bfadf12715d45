//! The instance registry: parsing the configured, `;`-delimited list of
//! backend addresses into the ordered sequence of backend descriptors.
//!
//! Each entry is trimmed of surrounding whitespace. An entry that is empty
//! once trimmed can name no instance, so the whole configuration is
//! malformed and startup must fail; whether a non-empty address is a valid
//! host or connection URI is the store client's to judge when the
//! connection is opened.

use crate::outcome::StartupError;
use vstd::prelude::*;

verus! {

/// The whitespace trimmed from around a configured address: the Unicode
/// white-space characters.
pub open spec fn config_space(c: char) -> bool {
    let n = c as u32;
    (0x09 <= n && n <= 0x0D) || n == 0x20 || n == 0x85 || n == 0xA0 || n == 0x1680 || (0x2000 <= n
        && n <= 0x200A) || n == 0x2028 || n == 0x2029 || n == 0x202F || n == 0x205F || n == 0x3000
}

/// Decides whitespace exactly as `config_space` states it.
fn is_config_space(c: char) -> (b: bool)
    ensures
        b == config_space(c),
{
    let n = c as u32;
    (0x09 <= n && n <= 0x0D) || n == 0x20 || n == 0x85 || n == 0xA0 || n == 0x1680 || (0x2000 <= n
        && n <= 0x200A) || n == 0x2028 || n == 0x2029 || n == 0x202F || n == 0x205F || n == 0x3000
}

/// The index of the first `;` in `s`, or `s.len()` if there is none.
pub open spec fn first_sep(s: Seq<char>) -> nat
    decreases s.len(),
{
    if s.len() == 0 {
        0
    } else if s[0] == ';' {
        0
    } else {
        1 + first_sep(s.drop_first())
    }
}

proof fn lemma_first_sep_bounds(s: Seq<char>)
    ensures
        first_sep(s) <= s.len(),
        first_sep(s) < s.len() ==> s[first_sep(s) as int] == ';',
        forall|j: int| 0 <= j < first_sep(s) ==> s[j] != ';',
    decreases s.len(),
{
    if s.len() > 0 && s[0] != ';' {
        lemma_first_sep_bounds(s.drop_first());
        assert forall|j: int| 0 <= j < first_sep(s) implies s[j] != ';' by {
            if j > 0 {
                assert(s.drop_first()[j - 1] != ';');
            }
        }
    }
}

proof fn lemma_first_sep_at(s: Seq<char>, i: int)
    requires
        0 <= i <= s.len(),
        forall|j: int| 0 <= j < i ==> s[j] != ';',
        i < s.len() ==> s[i] == ';',
    ensures
        first_sep(s) == i,
    decreases i,
{
    if i == 0 {
    } else {
        assert(s[0] != ';');
        assert(forall|j: int| 0 <= j < i - 1 ==> s.drop_first()[j] != ';');
        assert(i - 1 < s.drop_first().len() ==> s.drop_first()[i - 1] == ';');
        lemma_first_sep_at(s.drop_first(), i - 1);
    }
}

/// The configured entries of `s`, in order: the maximal runs between `;`
/// separators. A string with no separator is one entry; every separator
/// ends one entry and begins the next, so `n` separators give `n + 1`
/// entries, empty ones included.
pub open spec fn split_hosts(s: Seq<char>) -> Seq<Seq<char>>
    decreases s.len(),
    via split_hosts_decreases
{
    if first_sep(s) == s.len() {
        seq![s]
    } else {
        seq![s.take(first_sep(s) as int)] + split_hosts(s.skip(first_sep(s) as int + 1))
    }
}

#[via_fn]
proof fn split_hosts_decreases(s: Seq<char>) {
    lemma_first_sep_bounds(s);
}

/// `s` with its leading run of whitespace removed.
pub open spec fn trim_front(s: Seq<char>) -> Seq<char>
    decreases s.len(),
{
    if s.len() > 0 && config_space(s[0]) {
        trim_front(s.drop_first())
    } else {
        s
    }
}

/// `s` with its trailing run of whitespace removed.
pub open spec fn trim_back(s: Seq<char>) -> Seq<char>
    decreases s.len(),
{
    if s.len() > 0 && config_space(s.last()) {
        trim_back(s.drop_last())
    } else {
        s
    }
}

/// `s` with surrounding whitespace removed.
pub open spec fn trimmed(s: Seq<char>) -> Seq<char> {
    trim_back(trim_front(s))
}

proof fn lemma_trim_front_at(s: Seq<char>, a: int)
    requires
        0 <= a <= s.len(),
        forall|j: int| 0 <= j < a ==> config_space(s[j]),
        a < s.len() ==> !config_space(s[a]),
    ensures
        trim_front(s) == s.skip(a),
    decreases a,
{
    if a == 0 {
        assert(s.skip(0) =~= s);
    } else {
        assert(config_space(s[0]));
        assert(forall|j: int| 0 <= j < a - 1 ==> config_space(s.drop_first()[j]));
        assert(a - 1 < s.drop_first().len() ==> !config_space(s.drop_first()[a - 1]));
        lemma_trim_front_at(s.drop_first(), a - 1);
        assert(s.drop_first().skip(a - 1) =~= s.skip(a));
    }
}

proof fn lemma_trim_back_at(s: Seq<char>, b: int)
    requires
        0 <= b <= s.len(),
        forall|j: int| b <= j < s.len() ==> config_space(s[j]),
        b > 0 ==> !config_space(s[b - 1]),
    ensures
        trim_back(s) == s.take(b),
    decreases s.len() - b,
{
    if b == s.len() {
        if s.len() > 0 {
            assert(!config_space(s.last()));
        }
        assert(s.take(b) =~= s);
    } else {
        assert(config_space(s.last()));
        assert(forall|j: int| b <= j < s.drop_last().len() ==> config_space(s.drop_last()[j]));
        assert(b > 0 ==> !config_space(s.drop_last()[b - 1]));
        lemma_trim_back_at(s.drop_last(), b);
        assert(s.drop_last().take(b) =~= s.take(b));
    }
}

/// The entries of the configured backend list, each trimmed, in order.
pub open spec fn backend_hosts(config: Seq<char>) -> Seq<Seq<char>> {
    split_hosts(config).map_values(|entry: Seq<char>| trimmed(entry))
}

/// Finds the first `;` of `s`, or its end.
fn find_first_sep(s: &str) -> (idx: usize)
    ensures
        idx as nat == first_sep(s@),
        idx <= s@.len(),
{
    let n = s.unicode_len();
    let mut i: usize = 0;
    loop
        invariant
            i <= n == s@.len(),
            forall|j: int| 0 <= j < i ==> s@[j] != ';',
        ensures
            i <= n == s@.len(),
            forall|j: int| 0 <= j < i ==> s@[j] != ';',
            i < n ==> s@[i as int] == ';',
        decreases n - i,
    {
        if i == n {
            break;
        }
        if s.get_char(i) == ';' {
            break;
        }
        i = i + 1;
    }
    proof {
        lemma_first_sep_at(s@, i as int);
    }
    i
}

/// Splits the configured list at each `;`, keeping the entries' order.
fn split_config(s: &str) -> (parts: Vec<String>)
    ensures
        parts.deep_view() == split_hosts(s@),
    decreases s@.len(),
{
    proof {
        lemma_first_sep_bounds(s@);
    }
    let n = s.unicode_len();
    let idx = find_first_sep(s);
    if idx == n {
        let mut parts: Vec<String> = Vec::new();
        parts.push(s.to_owned());
        proof {
            assert(parts.deep_view() =~~= split_hosts(s@));
        }
        parts
    } else {
        let head = s.substring_char(0, idx);
        let tail = s.substring_char(idx + 1, n);
        let mut parts = split_config(tail);
        parts.insert(0, head.to_owned());
        proof {
            assert(head@ == s@.take(idx as int));
            assert(tail@ == s@.skip(idx as int + 1));
            assert(parts.deep_view() =~~= split_hosts(s@));
        }
        parts
    }
}

/// Trims surrounding whitespace from one configured entry.
fn trim_entry(s: &str) -> (t: String)
    ensures
        t@ == trimmed(s@),
{
    let n = s.unicode_len();
    let mut a: usize = 0;
    loop
        invariant
            a <= n == s@.len(),
            forall|j: int| 0 <= j < a ==> config_space(s@[j]),
        ensures
            a <= n == s@.len(),
            forall|j: int| 0 <= j < a ==> config_space(s@[j]),
            a < n ==> !config_space(s@[a as int]),
        decreases n - a,
    {
        if a == n {
            break;
        }
        let c = s.get_char(a);
        if !is_config_space(c) {
            break;
        }
        a = a + 1;
    }
    if a == n {
        proof {
            lemma_trim_front_at(s@, a as int);
            assert(s@.skip(a as int) =~= Seq::<char>::empty());
            assert(trimmed(s@) =~= Seq::<char>::empty());
        }
        return String::new();
    }
    let mut b: usize = n;
    loop
        invariant
            n == s@.len(),
            a < n,
            !config_space(s@[a as int]),
            a < b <= n,
            forall|j: int| b <= j < n ==> config_space(s@[j]),
        ensures
            a < b <= n,
            forall|j: int| b <= j < n ==> config_space(s@[j]),
            !config_space(s@[b - 1]),
        decreases b,
    {
        let c = s.get_char(b - 1);
        if !is_config_space(c) {
            break;
        }
        proof {
            assert(b - 1 > a);
        }
        b = b - 1;
    }
    let core = s.substring_char(a, b);
    proof {
        lemma_trim_front_at(s@, a as int);
        assert(forall|j: int|
            b - a <= j < s@.skip(a as int).len() ==> config_space(s@.skip(a as int)[j]));
        assert(!config_space(s@.skip(a as int)[b - a - 1]));
        lemma_trim_back_at(s@.skip(a as int), b - a);
        assert(s@.skip(a as int).take(b - a) =~= s@.subrange(a as int, b as int));
    }
    core.to_owned()
}

/// Parses the `;`-delimited backend list into the ordered descriptors,
/// each trimmed of surrounding whitespace. The configuration is malformed
/// — `ConfigurationError`, fatal at startup — exactly when some entry is
/// empty once trimmed.
pub fn parse_backend_hosts(config: &str) -> (result: Result<Vec<String>, StartupError>)
    ensures
        result matches Ok(hosts) ==> hosts.deep_view() == backend_hosts(config@) && forall|i: int|
            0 <= i < backend_hosts(config@).len() ==> backend_hosts(config@)[i].len() > 0,
        result is Ok <==> (forall|i: int|
            0 <= i < backend_hosts(config@).len() ==> backend_hosts(config@)[i].len() > 0),
        result matches Err(e) ==> e is ConfigurationError,
{
    let raw = split_config(config);
    let mut hosts: Vec<String> = Vec::new();
    let n = raw.len();
    let mut i: usize = 0;
    while i < n
        invariant
            n == raw@.len(),
            i <= n,
            raw.deep_view() == split_hosts(config@),
            hosts@.len() == i,
            hosts.deep_view() == backend_hosts(config@).take(i as int),
            forall|j: int| 0 <= j < i ==> backend_hosts(config@)[j].len() > 0,
        decreases n - i,
    {
        let entry = trim_entry(raw[i].as_str());
        proof {
            assert(raw.deep_view()[i as int] == raw@[i as int]@);
            assert(entry@ == backend_hosts(config@)[i as int]);
        }
        if entry.as_str().is_empty() {
            return Err(StartupError::ConfigurationError);
        }
        let ghost prev = hosts@;
        let ghost prev_entries = hosts.deep_view();
        hosts.push(entry);
        proof {
            assert forall|k: int|
                0 <= k < hosts.deep_view().len() implies hosts.deep_view()[k] == backend_hosts(
                config@,
            ).take(i as int + 1)[k] by {
                if k < i as int {
                    assert(hosts@[k] == prev[k]);
                    assert(prev_entries[k] == prev[k].deep_view());
                    assert(prev_entries[k] == backend_hosts(config@).take(i as int)[k]);
                } else {
                    assert(hosts@[k] == entry);
                }
            }
            assert(hosts.deep_view() =~= backend_hosts(config@).take(i as int + 1));
        }
        i = i + 1;
    }
    proof {
        assert(backend_hosts(config@).take(n as int) =~= backend_hosts(config@));
    }
    Ok(hosts)
}

} // verus!
