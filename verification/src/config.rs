//! The configuration file: plain text, one `Key: Value` pair per line.
//!
//! A line is split at its first colon; what stands before it, trimmed, is the
//! key and what stands behind it, trimmed, is the value. Lines without a colon
//! and lines with a key that is not one of the four known ones say nothing.
//! Where a key is set more than once the last line wins.

use crate::text::{
    equals_word, find, first_index, lemma_first_index, lemma_first_index_at,
    lemma_trimmed_without_last, to_chars, trim_bounds, trimmed,
};
use vstd::prelude::*;

verus! {

/// The four settings that the client needs.
#[derive(Debug, Clone, PartialEq, Eq)]
pub struct Config {
    /// Address of the server, host and port.
    pub ip_and_port: String,
    /// Name of the remote root folder.
    pub root_folder_name: String,
    /// Name of the scratch folder below the root folder.
    pub temp_folder_name: String,
    /// Name of the remote file that serves as the clipboard.
    pub temp_file_name: String,
}

/// A `Config` as four sequences of characters.
pub struct ConfigView {
    pub ip_and_port: Seq<char>,
    pub root_folder_name: Seq<char>,
    pub temp_folder_name: Seq<char>,
    pub temp_file_name: Seq<char>,
}

impl View for Config {
    type V = ConfigView;

    open spec fn view(&self) -> ConfigView {
        ConfigView {
            ip_and_port: self.ip_and_port@,
            root_folder_name: self.root_folder_name@,
            temp_folder_name: self.temp_folder_name@,
            temp_file_name: self.temp_file_name@,
        }
    }
}

/// The required keys, in the order in which a missing one is reported.
#[derive(Debug, Clone, Copy, PartialEq, Eq)]
pub enum ConfigKey {
    IpAndPort,
    RootFolderName,
    TempFolderName,
    TempFileName,
}

impl ConfigKey {
    /// The key as it is written in the file.
    pub open spec fn name(self) -> Seq<char> {
        match self {
            ConfigKey::IpAndPort => "IP and port"@,
            ConfigKey::RootFolderName => "Root folder name"@,
            ConfigKey::TempFolderName => "Temp folder name"@,
            ConfigKey::TempFileName => "Temp file name"@,
        }
    }

    /// The place of the key in the order of reporting.
    pub open spec fn rank(self) -> int {
        match self {
            ConfigKey::IpAndPort => 0,
            ConfigKey::RootFolderName => 1,
            ConfigKey::TempFolderName => 2,
            ConfigKey::TempFileName => 3,
        }
    }

    /// The key as it is written in the file.
    pub fn label(&self) -> (r: &'static str)
        ensures
            r@ == self.name(),
    {
        match self {
            ConfigKey::IpAndPort => "IP and port",
            ConfigKey::RootFolderName => "Root folder name",
            ConfigKey::TempFolderName => "Temp folder name",
            ConfigKey::TempFileName => "Temp file name",
        }
    }
}

/// Why a configuration did not load: a required key is set nowhere.
#[derive(Debug, Clone, Copy, PartialEq, Eq)]
pub struct ConfigError {
    /// The first required key that no line sets.
    pub missing: ConfigKey,
}

impl ConfigError {
    /// The complaint itself: the key, then ` not found`.
    pub fn msg(&self) -> (r: String)
        ensures
            r@ == self.missing.name() + " not found"@,
    {
        String::from_str(self.missing.label()).concat(" not found")
    }

    /// The complaint as it is shown to the user.
    pub fn to_text(&self) -> (r: String)
        ensures
            r@ == "Configuration Error: "@ + self.missing.name() + " not found"@,
    {
        String::from_str("Configuration Error: ").concat(self.missing.label()).concat(" not found")
    }
}

/// The pieces of `text` between its line feeds, in order.
pub open spec fn lines(text: Seq<char>) -> Seq<Seq<char>>
    decreases text.len(),
{
    let end = first_index(text, '\n');
    if end >= text.len() {
        seq![text]
    } else {
        proof {
            lemma_first_index(text, '\n');
        }
        seq![text.subrange(0, end)] + lines(text.subrange(end + 1, text.len() as int))
    }
}

/// Key and value of a line, or `None` for a line without a colon.
pub open spec fn entry(line: Seq<char>) -> Option<(Seq<char>, Seq<char>)> {
    let colon = first_index(line, ':');
    if colon < line.len() {
        Some(
            (trimmed(line.subrange(0, colon)), trimmed(line.subrange(colon + 1, line.len() as int))),
        )
    } else {
        None
    }
}

/// Whether `line` sets `key`.
pub open spec fn sets(line: Seq<char>, key: Seq<char>) -> bool {
    entry(line) matches Some(e) && e.0 == key
}

/// The value that `line` gives to its key.
pub open spec fn value_of(line: Seq<char>) -> Seq<char> {
    entry(line).unwrap().1
}

/// The value that the lines `ls` give to `key`: that of the last line that
/// sets it.
pub open spec fn lookup(ls: Seq<Seq<char>>, key: Seq<char>) -> Option<Seq<char>>
    decreases ls.len(),
{
    if ls.len() == 0 {
        None
    } else if sets(ls.last(), key) {
        Some(value_of(ls.last()))
    } else {
        lookup(ls.drop_last(), key)
    }
}

/// The value that the file `text` gives to `key`.
pub open spec fn setting(text: Seq<char>, key: ConfigKey) -> Option<Seq<char>> {
    lookup(lines(text), key.name())
}

/// What loading the file `text` comes to: the four values, or the first key
/// that is set nowhere.
pub open spec fn parsed(text: Seq<char>) -> Result<ConfigView, ConfigKey> {
    if setting(text, ConfigKey::IpAndPort) is None {
        Err(ConfigKey::IpAndPort)
    } else if setting(text, ConfigKey::RootFolderName) is None {
        Err(ConfigKey::RootFolderName)
    } else if setting(text, ConfigKey::TempFolderName) is None {
        Err(ConfigKey::TempFolderName)
    } else if setting(text, ConfigKey::TempFileName) is None {
        Err(ConfigKey::TempFileName)
    } else {
        Ok(
            ConfigView {
                ip_and_port: setting(text, ConfigKey::IpAndPort).unwrap(),
                root_folder_name: setting(text, ConfigKey::RootFolderName).unwrap(),
                temp_folder_name: setting(text, ConfigKey::TempFolderName).unwrap(),
                temp_file_name: setting(text, ConfigKey::TempFileName).unwrap(),
            },
        )
    }
}

/// Whether `l` can be a line of a file: it holds no line feed.
pub open spec fn is_line(l: Seq<char>) -> bool {
    forall|i: int| 0 <= i < l.len() ==> l[i] != '\n'
}

/// The text of the file whose lines are `ls`: the lines with a line feed
/// between each two of them.
pub open spec fn joined(ls: Seq<Seq<char>>) -> Seq<char>
    decreases ls.len(),
{
    if ls.len() == 0 {
        Seq::empty()
    } else if ls.len() == 1 {
        ls[0]
    } else {
        ls[0] + seq!['\n'] + joined(ls.drop_first())
    }
}

/// Whether line `i` of `ls` sets `key` and no later line does.
pub open spec fn is_last_to_set(ls: Seq<Seq<char>>, key: Seq<char>, i: int) -> bool {
    &&& 0 <= i < ls.len()
    &&& sets(ls[i], key)
    &&& forall|j: int| i < j < ls.len() ==> !sets(#[trigger] ls[j], key)
}

/// Splitting undoes joining: a file written line by line reads back as the
/// same lines.
pub proof fn lemma_lines_of_joined(ls: Seq<Seq<char>>)
    requires
        ls.len() > 0,
        forall|i: int| 0 <= i < ls.len() ==> is_line(#[trigger] ls[i]),
    ensures
        lines(joined(ls)) == ls,
    decreases ls.len(),
{
    let text = joined(ls);
    let head = ls[0];
    assert(is_line(head));
    if ls.len() == 1 {
        lemma_first_index_at(head, '\n', head.len() as int);
        assert(seq![head] =~= ls);
    } else {
        let rest = ls.drop_first();
        assert forall|i: int| 0 <= i < rest.len() implies is_line(#[trigger] rest[i]) by {
            assert(rest[i] == ls[i + 1]);
        }
        lemma_lines_of_joined(rest);
        lemma_first_index_at(text, '\n', head.len() as int);
        assert(text.subrange(0, head.len() as int) =~= head);
        assert(text.subrange(head.len() as int + 1, text.len() as int) =~= joined(rest));
        assert(seq![head] + rest =~= ls);
    }
}

/// The value of a key is that of the last line that sets it.
pub proof fn lemma_lookup_last(ls: Seq<Seq<char>>, key: Seq<char>, i: int)
    requires
        is_last_to_set(ls, key, i),
    ensures
        lookup(ls, key) == Some(value_of(ls[i])),
    decreases ls.len(),
{
    if sets(ls.last(), key) {
        assert(i == ls.len() - 1);
    } else {
        let t = ls.drop_last();
        assert forall|j: int| i < j < t.len() implies !sets(#[trigger] t[j], key) by {
            assert(t[j] == ls[j]);
        }
        lemma_lookup_last(t, key, i);
    }
}

/// A key has a value exactly if some line sets it.
pub proof fn lemma_lookup_some(ls: Seq<Seq<char>>, key: Seq<char>)
    ensures
        lookup(ls, key) is Some <==> exists|j: int| 0 <= j < ls.len() && sets(#[trigger] ls[j], key),
    decreases ls.len(),
{
    if ls.len() == 0 {
    } else if sets(ls.last(), key) {
        assert(sets(ls[ls.len() - 1], key));
    } else {
        let t = ls.drop_last();
        lemma_lookup_some(t, key);
        if lookup(t, key) is Some {
            let j = choose|j: int| 0 <= j < t.len() && sets(#[trigger] t[j], key);
            assert(sets(ls[j], key));
        }
        if exists|j: int| 0 <= j < ls.len() && sets(#[trigger] ls[j], key) {
            let j = choose|j: int| 0 <= j < ls.len() && sets(#[trigger] ls[j], key);
            assert(sets(t[j], key));
        }
    }
}

/// A file in which each of the four keys is set loads, whatever the order of
/// its lines and whatever other lines stand among them, and gives each
/// setting the trimmed text behind the first colon of the last line that
/// sets it.
pub proof fn lemma_complete_file_loads(ls: Seq<Seq<char>>, a: int, r: int, t: int, f: int)
    requires
        ls.len() > 0,
        forall|i: int| 0 <= i < ls.len() ==> is_line(#[trigger] ls[i]),
        is_last_to_set(ls, ConfigKey::IpAndPort.name(), a),
        is_last_to_set(ls, ConfigKey::RootFolderName.name(), r),
        is_last_to_set(ls, ConfigKey::TempFolderName.name(), t),
        is_last_to_set(ls, ConfigKey::TempFileName.name(), f),
    ensures
        parsed(joined(ls)) == Ok::<ConfigView, ConfigKey>(
            ConfigView {
                ip_and_port: value_of(ls[a]),
                root_folder_name: value_of(ls[r]),
                temp_folder_name: value_of(ls[t]),
                temp_file_name: value_of(ls[f]),
            },
        ),
{
    lemma_lines_of_joined(ls);
    lemma_lookup_last(ls, ConfigKey::IpAndPort.name(), a);
    lemma_lookup_last(ls, ConfigKey::RootFolderName.name(), r);
    lemma_lookup_last(ls, ConfigKey::TempFolderName.name(), t);
    lemma_lookup_last(ls, ConfigKey::TempFileName.name(), f);
}

/// A file that sets `key` nowhere, and each key before it somewhere, fails
/// to load and names `key`.
pub proof fn lemma_missing_key_is_named(ls: Seq<Seq<char>>, key: ConfigKey)
    requires
        ls.len() > 0,
        forall|i: int| 0 <= i < ls.len() ==> is_line(#[trigger] ls[i]),
        forall|j: int| 0 <= j < ls.len() ==> !sets(#[trigger] ls[j], key.name()),
        forall|k: ConfigKey|
            #![trigger k.rank()]
            k.rank() < key.rank() ==> exists|j: int|
                0 <= j < ls.len() && sets(#[trigger] ls[j], k.name()),
    ensures
        parsed(joined(ls)) == Err::<ConfigView, ConfigKey>(key),
{
    lemma_lines_of_joined(ls);
    lemma_lookup_some(ls, ConfigKey::IpAndPort.name());
    lemma_lookup_some(ls, ConfigKey::RootFolderName.name());
    lemma_lookup_some(ls, ConfigKey::TempFolderName.name());
    lemma_lookup_some(ls, ConfigKey::TempFileName.name());
    assert(ConfigKey::IpAndPort.rank() == 0);
    assert(ConfigKey::RootFolderName.rank() == 1);
    assert(ConfigKey::TempFolderName.rank() == 2);
    assert(ConfigKey::TempFileName.rank() == 3);
}

/// A carriage return at the end of a line says nothing: a file whose lines
/// end in carriage return and line feed reads as the same file with plain
/// line feeds.
pub proof fn lemma_carriage_return(line: Seq<char>)
    requires
        line.len() > 0,
        line.last() == '\r',
    ensures
        entry(line.drop_last()) == entry(line),
{
    let short = line.drop_last();
    let colon = first_index(line, ':');
    lemma_first_index(line, ':');
    if colon < line.len() {
        lemma_first_index_at(short, ':', colon);
        let value = line.subrange(colon + 1, line.len() as int);
        assert(short.subrange(0, colon) =~= line.subrange(0, colon));
        assert(short.subrange(colon + 1, short.len() as int) =~= value.drop_last());
        lemma_trimmed_without_last(value);
    } else {
        lemma_first_index_at(short, ':', short.len() as int);
    }
}

/// Whether the pair of positions `slot` marks `value` within `text`.
spec fn marks(slot: Option<(usize, usize)>, text: Seq<char>, value: Option<Seq<char>>) -> bool {
    match slot {
        None => value is None,
        Some((a, b)) => a <= b <= text.len() && value == Some(text.subrange(a as int, b as int)),
    }
}

/// One more line changes the value of `key` exactly if it sets `key`.
proof fn lemma_lookup_push(ls: Seq<Seq<char>>, line: Seq<char>, key: Seq<char>)
    ensures
        lookup(ls.push(line), key) == if sets(line, key) {
            Some(value_of(line))
        } else {
            lookup(ls, key)
        },
{
    assert(ls.push(line).drop_last() =~= ls);
}

/// Where key and value of the line `chars[from..to]` stand, as two pairs of
/// positions; `None` for a line without a colon.
fn read_entry(chars: &Vec<char>, from: usize, to: usize) -> (r: Option<
    ((usize, usize), (usize, usize)),
>)
    requires
        from <= to <= chars.len(),
    ensures
        match r {
            None => entry(chars@.subrange(from as int, to as int)) is None,
            Some((k, v)) => {
                &&& from <= k.0 <= k.1 <= to
                &&& from <= v.0 <= v.1 <= to
                &&& entry(chars@.subrange(from as int, to as int)) == Some(
                    (chars@.subrange(k.0 as int, k.1 as int), chars@.subrange(v.0 as int, v.1 as int)),
                )
            },
        },
{
    let colon = find(chars, from, to, ':');
    if colon < to {
        let k = trim_bounds(chars, from, colon);
        let v = trim_bounds(chars, colon + 1, to);
        proof {
            let line = chars@.subrange(from as int, to as int);
            assert(line.subrange(0, colon - from) =~= chars@.subrange(from as int, colon as int));
            assert(line.subrange(colon - from + 1, line.len() as int) =~= chars@.subrange(
                colon + 1,
                to as int,
            ));
        }
        Some((k, v))
    } else {
        None
    }
}

/// The slot of `key` after a line with its key at `k` and its value at `v`.
fn updated(
    slot: Option<(usize, usize)>,
    chars: &Vec<char>,
    k: (usize, usize),
    v: (usize, usize),
    key: ConfigKey,
    Ghost(ls): Ghost<Seq<Seq<char>>>,
    Ghost(line): Ghost<Seq<char>>,
) -> (r: Option<(usize, usize)>)
    requires
        k.0 <= k.1 <= chars.len(),
        v.0 <= v.1 <= chars.len(),
        entry(line) == Some(
            (chars@.subrange(k.0 as int, k.1 as int), chars@.subrange(v.0 as int, v.1 as int)),
        ),
        marks(slot, chars@, lookup(ls, key.name())),
    ensures
        marks(r, chars@, lookup(ls.push(line), key.name())),
{
    proof {
        lemma_lookup_push(ls, line, key.name());
    }
    if equals_word(chars, k.0, k.1, key.label()) {
        Some(v)
    } else {
        slot
    }
}

/// Reads a configuration from the text of its file.
///
/// Succeeds exactly if each of the four keys is set by some line, and then
/// returns for each key the value of the last line that sets it. Otherwise
/// the error names the first key, in the order of `ConfigKey`, that no line
/// sets.
pub fn parse_config(text: &str) -> (r: Result<Config, ConfigError>)
    ensures
        match r {
            Ok(c) => parsed(text@) == Ok::<ConfigView, ConfigKey>(c@),
            Err(e) => parsed(text@) == Err::<ConfigView, ConfigKey>(e.missing),
        },
{
    let chars = to_chars(text);
    let n = chars.len();
    let mut addr: Option<(usize, usize)> = None;
    let mut root: Option<(usize, usize)> = None;
    let mut temp: Option<(usize, usize)> = None;
    let mut file: Option<(usize, usize)> = None;
    let mut pos: usize = 0;
    let mut more = true;
    let ghost mut done: Seq<Seq<char>> = Seq::empty();
    assert(text@.subrange(0, n as int) =~= text@);
    assert(done + lines(text@) =~= lines(text@));
    while more
        invariant
            chars@ == text@,
            n == chars.len(),
            pos <= n,
            more ==> lines(text@) == done + lines(text@.subrange(pos as int, n as int)),
            !more ==> lines(text@) == done,
            marks(addr, text@, lookup(done, ConfigKey::IpAndPort.name())),
            marks(root, text@, lookup(done, ConfigKey::RootFolderName.name())),
            marks(temp, text@, lookup(done, ConfigKey::TempFolderName.name())),
            marks(file, text@, lookup(done, ConfigKey::TempFileName.name())),
        decreases n - pos + if more { 1int } else { 0int },
    {
        let end = find(&chars, pos, n, '\n');
        let ghost rest = text@.subrange(pos as int, n as int);
        let ghost line = text@.subrange(pos as int, end as int);
        match read_entry(&chars, pos, end) {
            Some((k, v)) => {
                addr = updated(addr, &chars, k, v, ConfigKey::IpAndPort, Ghost(done), Ghost(line));
                root =
                updated(root, &chars, k, v, ConfigKey::RootFolderName, Ghost(done), Ghost(line));
                temp =
                updated(temp, &chars, k, v, ConfigKey::TempFolderName, Ghost(done), Ghost(line));
                file =
                updated(file, &chars, k, v, ConfigKey::TempFileName, Ghost(done), Ghost(line));
            },
            None => {
                proof {
                    lemma_lookup_push(done, line, ConfigKey::IpAndPort.name());
                    lemma_lookup_push(done, line, ConfigKey::RootFolderName.name());
                    lemma_lookup_push(done, line, ConfigKey::TempFolderName.name());
                    lemma_lookup_push(done, line, ConfigKey::TempFileName.name());
                }
            },
        }
        proof {
            assert(rest.subrange(0, end - pos) =~= line);
            if end == n {
                assert(line =~= rest);
                assert(done + seq![rest] =~= done.push(line));
            } else {
                let tail = text@.subrange(end + 1, n as int);
                assert(rest.subrange(end - pos + 1, rest.len() as int) =~= tail);
                assert(done + (seq![line] + lines(tail)) =~= done.push(line) + lines(tail));
            }
            done = done.push(line);
        }
        if end == n {
            more = false;
        } else {
            pos = end + 1;
        }
    }
    match (addr, root, temp, file) {
        (Some(a), Some(r), Some(t), Some(f)) => Ok(
            Config {
                ip_and_port: text.substring_char(a.0, a.1).to_owned(),
                root_folder_name: text.substring_char(r.0, r.1).to_owned(),
                temp_folder_name: text.substring_char(t.0, t.1).to_owned(),
                temp_file_name: text.substring_char(f.0, f.1).to_owned(),
            },
        ),
        (None, _, _, _) => Err(ConfigError { missing: ConfigKey::IpAndPort }),
        (_, None, _, _) => Err(ConfigError { missing: ConfigKey::RootFolderName }),
        (_, _, None, _) => Err(ConfigError { missing: ConfigKey::TempFolderName }),
        (_, _, _, None) => Err(ConfigError { missing: ConfigKey::TempFileName }),
    }
}

} // verus!
