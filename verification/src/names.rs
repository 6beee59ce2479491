//! The grammar of the file names that carry meaning: `<name>.js` and
//! `<name>.<user>.js` for scripts, `<user>.key` for the markers of registered
//! users.
//!
//! A file name is the last component of a path, as text. It is cut at its last
//! dot into a stem and an extension; a name without a dot, or whose only dot is
//! its first character, has no extension and is its own stem.
use vstd::prelude::*;
use vstd::std_specs::iter::IteratorSpec;
use vstd::string::*;

verus! {

/// Index of the last `.` in `s`, or `-1` where `s` holds none.
pub open spec fn last_dot(s: Seq<char>) -> int
    decreases s.len(),
{
    if s.len() == 0 {
        -1
    } else if s.last() == '.' {
        s.len() - 1
    } else {
        last_dot(s.drop_last())
    }
}

/// `last_dot` is the one position that holds a `.` with none after it.
pub proof fn lemma_last_dot(s: Seq<char>)
    ensures
        -1 <= last_dot(s) < s.len(),
        last_dot(s) >= 0 ==> s[last_dot(s)] == '.',
        forall|j: int| last_dot(s) < j < s.len() ==> s[j] != '.',
    decreases s.len(),
{
    if s.len() > 0 && s.last() != '.' {
        let t = s.drop_last();
        lemma_last_dot(t);
        assert forall|j: int| last_dot(s) < j < s.len() implies s[j] != '.' by {
            if j < t.len() {
                assert(t[j] == s[j]);
            }
        }
    }
}

/// A position that holds a `.` with none after it is `last_dot`.
pub proof fn lemma_last_dot_is(s: Seq<char>, i: int)
    requires
        0 <= i < s.len(),
        s[i] == '.',
        forall|j: int| i < j < s.len() ==> s[j] != '.',
    ensures
        last_dot(s) == i,
    decreases s.len(),
{
    if i < s.len() - 1 {
        let t = s.drop_last();
        assert(t[i] == s[i]);
        assert forall|j: int| i < j < t.len() implies t[j] != '.' by {
            assert(t[j] == s[j]);
        }
        lemma_last_dot_is(t, i);
    }
}

/// A text without any `.` has `last_dot` equal to `-1`.
pub proof fn lemma_no_dot(s: Seq<char>)
    requires
        forall|j: int| 0 <= j < s.len() ==> s[j] != '.',
    ensures
        last_dot(s) == -1,
    decreases s.len(),
{
    if s.len() > 0 {
        let t = s.drop_last();
        assert forall|j: int| 0 <= j < t.len() implies t[j] != '.' by {
            assert(t[j] == s[j]);
        }
        lemma_no_dot(t);
    }
}

/// The extension of a file name: what follows its last dot, where that dot is
/// not the name's first character.
pub open spec fn extension(file_name: Seq<char>) -> Option<Seq<char>> {
    let d = last_dot(file_name);
    if d <= 0 {
        None
    } else {
        Some(file_name.subrange(d + 1, file_name.len() as int))
    }
}

/// The stem of a file name: what precedes the dot of its extension, or the
/// whole name where it has no extension.
pub open spec fn file_stem(file_name: Seq<char>) -> Seq<char> {
    let d = last_dot(file_name);
    if d <= 0 {
        file_name
    } else {
        file_name.subrange(0, d)
    }
}

/// The extension that marks a script.
pub open spec fn script_extension() -> Seq<char> {
    "js"@
}

/// The extension that marks a registered user.
pub open spec fn marker_extension() -> Seq<char> {
    "key"@
}

/// What a script's file name says: the script's name and, where the stem has a
/// second segment, the one user it is addressed to.
#[derive(Clone, Debug)]
pub struct ScriptName {
    pub name: String,
    pub user_override: Option<String>,
}

/// The mathematical value of a `ScriptName`.
pub ghost struct ScriptNameView {
    pub name: Seq<char>,
    pub user_override: Option<Seq<char>>,
}

impl View for ScriptName {
    type V = ScriptNameView;

    open spec fn view(&self) -> ScriptNameView {
        ScriptNameView { name: self.name@, user_override: self.user_override.deep_view() }
    }
}

impl DeepView for ScriptName {
    type V = ScriptNameView;

    open spec fn deep_view(&self) -> ScriptNameView {
        self@
    }
}

/// The segment of `s` that follows its last dot; all of `s` where it has none.
pub open spec fn last_segment(s: Seq<char>) -> Seq<char> {
    s.subrange(last_dot(s) + 1, s.len() as int)
}

/// Reads a stem from the right. Without a dot the stem is the script's name.
/// Otherwise its last segment names the user, and the segment before that one
/// is the script's name; segments further left are not looked at.
pub open spec fn split_stem(stem: Seq<char>) -> ScriptNameView {
    let d = last_dot(stem);
    if d < 0 {
        ScriptNameView { name: stem, user_override: None }
    } else {
        ScriptNameView {
            name: last_segment(stem.subrange(0, d)),
            user_override: Some(last_segment(stem)),
        }
    }
}

/// What a file name means as a script: nothing unless its extension is `js`.
pub open spec fn script_name(file_name: Seq<char>) -> Option<ScriptNameView> {
    if extension(file_name) == Some(script_extension()) {
        Some(split_stem(file_stem(file_name)))
    } else {
        None
    }
}

/// The user that a file name registers: its stem, where its extension is `key`.
pub open spec fn marker_name(file_name: Seq<char>) -> Option<Seq<char>> {
    if extension(file_name) == Some(marker_extension()) {
        Some(file_stem(file_name))
    } else {
        None
    }
}

/// The name under which a script is installed: its name and `.js`.
pub open spec fn installed_name(name: Seq<char>) -> Seq<char> {
    name + ".js"@
}

/// A script whose name is not empty and holds no dot is installed under a
/// file name that reads as a script of that name, addressed to all users.
pub proof fn lemma_installed_name_reads_back(name: Seq<char>)
    requires
        name.len() > 0,
        forall|j: int| 0 <= j < name.len() ==> name[j] != '.',
    ensures
        script_name(installed_name(name)) == Some(
            ScriptNameView { name, user_override: None },
        ),
{
    reveal_strlit(".js");
    reveal_strlit("js");
    let file_name = installed_name(name);
    let d = name.len() as int;
    assert(file_name.len() == d + 3);
    assert(file_name[d] == '.' && file_name[d + 1] == 'j' && file_name[d + 2] == 's');
    lemma_last_dot_is(file_name, d);
    assert(file_name.subrange(d + 1, d + 3) =~= "js"@);
    assert(file_name.subrange(0, d) =~= name);
    lemma_no_dot(name);
}

/// `last` is where the last dot among the first `i` characters of `s` stands.
spec fn is_last_dot_below(s: Seq<char>, i: int, last: Option<usize>) -> bool {
    match last {
        Some(d) => d < i && s[d as int] == '.' && forall|j: int| d < j < i ==> s[j] != '.',
        None => forall|j: int| 0 <= j < i ==> s[j] != '.',
    }
}

/// Finds the last dot of `s`, counting characters from zero.
pub fn find_last_dot(s: &str) -> (r: Option<usize>)
    ensures
        match r {
            Some(i) => last_dot(s@) == i && i < s@.len() && s@[i as int] == '.',
            None => last_dot(s@) == -1,
        },
{
    let n: usize = s.unicode_len();
    let mut chars = s.chars();
    let mut last: Option<usize> = None;
    let mut i: usize = 0;
    loop
        invariant
            n == s@.len(),
            i <= n,
            chars.remaining() == s@.skip(i as int),
            chars.obeys_prophetic_iter_laws(),
            chars.decrease() is Some,
            is_last_dot_below(s@, i as int, last),
        ensures
            i == n,
            is_last_dot_below(s@, i as int, last),
        decreases n - i,
    {
        match chars.next() {
            Some(c) => {
                assert(c == s@[i as int]);
                if c == '.' {
                    last = Some(i);
                }
                i += 1;
            },
            None => {
                break;
            },
        }
    }
    proof {
        match last {
            Some(d) => lemma_last_dot_is(s@, d as int),
            None => lemma_no_dot(s@),
        }
    }
    last
}

/// The extension of a file name, where it has one.
pub fn extension_of(file_name: &str) -> (r: Option<String>)
    ensures
        r.deep_view() == extension(file_name@),
{
    match find_last_dot(file_name) {
        Some(d) => {
            if d == 0 {
                None
            } else {
                let n: usize = file_name.unicode_len();
                Some(file_name.substring_char(d + 1, n).to_owned())
            }
        },
        None => None,
    }
}

/// The stem of a file name.
pub fn stem_of(file_name: &str) -> (r: String)
    ensures
        r@ == file_stem(file_name@),
{
    match find_last_dot(file_name) {
        Some(d) => {
            if d == 0 {
                file_name.to_owned()
            } else {
                file_name.substring_char(0, d).to_owned()
            }
        },
        None => file_name.to_owned(),
    }
}

/// Reads a stem as a script's name and the user it is addressed to.
pub fn split_stem_of(stem: &str) -> (r: ScriptName)
    ensures
        r@ == split_stem(stem@),
{
    let n: usize = stem.unicode_len();
    match find_last_dot(stem) {
        None => ScriptName { name: stem.to_owned(), user_override: None },
        Some(d) => {
            let head = stem.substring_char(0, d);
            let user = stem.substring_char(d + 1, n).to_owned();
            let name = match find_last_dot(head) {
                None => head.to_owned(),
                Some(e) => head.substring_char(e + 1, d).to_owned(),
            };
            assert(name@ =~= last_segment(head@));
            ScriptName { name, user_override: Some(user) }
        },
    }
}

/// Reads a file name as a script. `None` where the extension is not `js`.
pub fn parse_script_name(file_name: &str) -> (r: Option<ScriptName>)
    ensures
        r.deep_view() == script_name(file_name@),
{
    match extension_of(file_name) {
        Some(ext) => {
            if ext == String::from_str("js") {
                let stem = stem_of(file_name);
                Some(split_stem_of(stem.as_str()))
            } else {
                None
            }
        },
        None => None,
    }
}

/// Reads a file name as a user's marker. `None` where the extension is not
/// `key`.
pub fn parse_marker_name(file_name: &str) -> (r: Option<String>)
    ensures
        r.deep_view() == marker_name(file_name@),
{
    match extension_of(file_name) {
        Some(ext) => {
            if ext == String::from_str("key") {
                Some(stem_of(file_name))
            } else {
                None
            }
        },
        None => None,
    }
}

/// The file name under which a script called `name` is installed.
pub fn installed_name_of(name: &str) -> (r: String)
    ensures
        r@ == installed_name(name@),
{
    name.to_owned().concat(".js")
}

} // verus!
