//! The fixed table of greetings and the lookup in it.

use vstd::prelude::*;
use vstd::string::StrSliceExecFns;

verus! {

/// The greeting table as a mathematical map from language code to text.
pub open spec fn greeting_table() -> Map<Seq<char>, Seq<char>> {
    map![
        "en"@ => "Hello, world!"@,
        "el"@ => "Γειά σου, κόσμε!"@,
        "gd"@ => "Halò, a shaoghail!"@,
        "mk"@ => "Здраво, свету!"@,
        "he"@ => "שלום, עולם!"@,
        "fr"@ => "Bonjour, le monde!"@,
    ]
}

/// `entries` lists the table exactly: each code once, with its text.
pub open spec fn lists_table(entries: Seq<(&'static str, &'static str)>) -> bool {
    &&& forall|i: int|
        0 <= i < entries.len() ==> {
            &&& #[trigger] greeting_table().contains_key(entries[i].0@)
            &&& greeting_table()[entries[i].0@] == entries[i].1@
        }
    &&& forall|c: Seq<char>|
        #[trigger] greeting_table().contains_key(c) ==> exists|i: int|
            0 <= i < entries.len() && #[trigger] entries[i].0@ == c
    &&& forall|i: int, j: int| 0 <= i < j < entries.len() ==> entries[i].0@ != entries[j].0@
}

/// Spells out each code of the table letter by letter, which tells the codes
/// apart from each other and from any other string.
pub proof fn lemma_code_letters()
    ensures
        "en"@ =~= seq!['e', 'n'],
        "el"@ =~= seq!['e', 'l'],
        "gd"@ =~= seq!['g', 'd'],
        "mk"@ =~= seq!['m', 'k'],
        "he"@ =~= seq!['h', 'e'],
        "fr"@ =~= seq!['f', 'r'],
{
    reveal_strlit("en");
    reveal_strlit("el");
    reveal_strlit("gd");
    reveal_strlit("mk");
    reveal_strlit("he");
    reveal_strlit("fr");
}

/// The entries of the greeting table.
pub fn greeting_entries() -> (r: Vec<(&'static str, &'static str)>)
    ensures
        lists_table(r@),
        r@.len() > 0,
{
    let r = vec![
        ("en", "Hello, world!"),
        ("el", "Γειά σου, κόσμε!"),
        ("gd", "Halò, a shaoghail!"),
        ("mk", "Здраво, свету!"),
        ("he", "שלום, עולם!"),
        ("fr", "Bonjour, le monde!"),
    ];
    proof {
        lemma_code_letters();
        let s = r@;
        assert(forall|i: int| 0 <= i < 6 ==> s[i].0@.len() == 2);
        assert(forall|i: int, j: int| 0 <= i < j < 6 ==> s[i].0@ != s[j].0@) by {
            assert(forall|i: int, j: int|
                0 <= i < j < 6 && s[i].0@ == s[j].0@ ==> s[i].0@[0] == s[j].0@[0] && s[i].0@[1]
                    == s[j].0@[1]);
        }
        assert forall|c: Seq<char>| #[trigger] greeting_table().contains_key(c) implies exists|
            i: int,
        | 0 <= i < s.len() && #[trigger] s[i].0@ == c by {
            if c == s[0].0@ {
            } else if c == s[1].0@ {
                assert(s[1].0@ == c);
            } else if c == s[2].0@ {
                assert(s[2].0@ == c);
            } else if c == s[3].0@ {
                assert(s[3].0@ == c);
            } else if c == s[4].0@ {
                assert(s[4].0@ == c);
            } else {
                assert(s[5].0@ == c);
            }
        }
    }
    r
}

/// `codes` lists the codes of the table exactly, each once.
pub open spec fn lists_codes(codes: Seq<&'static str>) -> bool {
    &&& forall|i: int| 0 <= i < codes.len() ==> #[trigger] greeting_table().contains_key(codes[i]@)
    &&& forall|c: Seq<char>|
        #[trigger] greeting_table().contains_key(c) ==> exists|i: int|
            0 <= i < codes.len() && #[trigger] codes[i]@ == c
    &&& forall|i: int, j: int| 0 <= i < j < codes.len() ==> codes[i]@ != codes[j]@
}

/// The codes of the greeting table, in the order of its entries.
pub fn table_codes() -> (r: Vec<&'static str>)
    ensures
        lists_codes(r@),
{
    let entries = greeting_entries();
    let mut codes: Vec<&'static str> = Vec::new();
    let mut i: usize = 0;
    while i < entries.len()
        invariant
            lists_table(entries@),
            i <= entries.len(),
            codes@.len() == i,
            forall|j: int| 0 <= j < i ==> codes@[j] == entries@[j].0,
        decreases entries.len() - i,
    {
        codes.push(entries[i].0);
        i += 1;
    }
    assert forall|c: Seq<char>| #[trigger] greeting_table().contains_key(c) implies exists|i: int|
        0 <= i < codes@.len() && #[trigger] codes@[i]@ == c by {
        let i = choose|i: int| 0 <= i < entries@.len() && #[trigger] entries@[i].0@ == c;
        assert(codes@[i]@ == c);
    }
    codes
}

/// Every code of the table is a non-empty string.
pub proof fn lemma_codes_nonempty(c: Seq<char>)
    requires
        greeting_table().contains_key(c),
    ensures
        c.len() > 0,
{
    lemma_code_letters();
}

/// Whether two strings hold the same characters.
fn same_text(a: &str, b: &str) -> (r: bool)
    ensures
        r == (a@ == b@),
{
    let n = a.unicode_len();
    if n != b.unicode_len() {
        return false;
    }
    let mut i: usize = 0;
    while i < n
        invariant
            n == a@.len(),
            n == b@.len(),
            i <= n,
            a@.subrange(0, i as int) =~= b@.subrange(0, i as int),
        decreases n - i,
    {
        if a.get_char(i) != b.get_char(i) {
            return false;
        }
        assert(a@.subrange(0, i + 1) =~= a@.subrange(0, i as int).push(a@[i as int]));
        assert(b@.subrange(0, i + 1) =~= b@.subrange(0, i as int).push(b@[i as int]));
        i += 1;
    }
    assert(a@ =~= a@.subrange(0, n as int));
    assert(b@ =~= b@.subrange(0, n as int));
    true
}

/// Looks `code` up in the greeting table: its text when the code is in the
/// table, `None` when it is not.
pub fn lookup(code: &str) -> (r: Option<&'static str>)
    ensures
        match r {
            Some(t) => greeting_table().contains_key(code@) && t@ == greeting_table()[code@],
            None => !greeting_table().contains_key(code@),
        },
{
    let entries = greeting_entries();
    let mut i: usize = 0;
    while i < entries.len()
        invariant
            lists_table(entries@),
            i <= entries.len(),
            forall|j: int| 0 <= j < i ==> entries@[j].0@ != code@,
        decreases entries.len() - i,
    {
        if same_text(entries[i].0, code) {
            assert(greeting_table().contains_key(entries@[i as int].0@));
            return Some(entries[i].1);
        }
        i += 1;
    }
    None
}

} // verus!
