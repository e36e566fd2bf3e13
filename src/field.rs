use vstd::prelude::*;
use crate::game::{Game, GameView, strings_view};
use crate::text::{chars_of, items_of, list_items, string_of, trim, trimmed};

verus! {

/// A position in the record schema: the field that the next line is expected to carry.
#[derive(Clone, Copy, PartialEq, Eq, Structural, Debug)]
pub enum ParserState {
    Name,
    Cover,
    Engine,
    Setup,
    Runtime,
    Store,
    Hints,
    Genre,
    Tags,
    Year,
    Dev,
    Publisher,
    Version,
    Status,
    Added,
    Updated,
}

/// The position after `s` in the fixed cycle; `Updated` wraps round to `Name`.
pub open spec fn next_state(s: ParserState) -> ParserState {
    match s {
        ParserState::Name => ParserState::Cover,
        ParserState::Cover => ParserState::Engine,
        ParserState::Engine => ParserState::Setup,
        ParserState::Setup => ParserState::Runtime,
        ParserState::Runtime => ParserState::Store,
        ParserState::Store => ParserState::Hints,
        ParserState::Hints => ParserState::Genre,
        ParserState::Genre => ParserState::Tags,
        ParserState::Tags => ParserState::Year,
        ParserState::Year => ParserState::Dev,
        ParserState::Dev => ParserState::Publisher,
        ParserState::Publisher => ParserState::Version,
        ParserState::Version => ParserState::Status,
        ParserState::Status => ParserState::Added,
        ParserState::Added => ParserState::Updated,
        ParserState::Updated => ParserState::Name,
    }
}

/// The number of fields in a record.
pub open spec fn schema_len() -> nat {
    16
}

/// The position of the field at place `i` of a record, counting from 0.
pub open spec fn state_at(i: nat) -> ParserState {
    if i == 0 {
        ParserState::Name
    } else if i == 1 {
        ParserState::Cover
    } else if i == 2 {
        ParserState::Engine
    } else if i == 3 {
        ParserState::Setup
    } else if i == 4 {
        ParserState::Runtime
    } else if i == 5 {
        ParserState::Store
    } else if i == 6 {
        ParserState::Hints
    } else if i == 7 {
        ParserState::Genre
    } else if i == 8 {
        ParserState::Tags
    } else if i == 9 {
        ParserState::Year
    } else if i == 10 {
        ParserState::Dev
    } else if i == 11 {
        ParserState::Publisher
    } else if i == 12 {
        ParserState::Version
    } else if i == 13 {
        ParserState::Status
    } else if i == 14 {
        ParserState::Added
    } else {
        ParserState::Updated
    }
}

/// Whether `line` carries the field at position `s`.
pub open spec fn accepts(s: ParserState, line: Seq<char>) -> bool {
    field_raw(key_of(s), line) is Some
}

/// The cycle visits the fields in schema order, and wraps after the last one.
pub proof fn lemma_next_state_at(i: nat)
    requires
        i < schema_len(),
    ensures
        next_state(state_at(i)) == state_at(((i + 1) % 16) as nat),
        state_at(i) == ParserState::Updated <==> i == 15,
{
}

/// The marker that opens a line carrying the field at `s`.
pub open spec fn key_of(s: ParserState) -> Seq<char> {
    match s {
        ParserState::Name => seq!['N', 'a', 'm', 'e'],
        ParserState::Cover => seq!['C', 'o', 'v', 'e', 'r'],
        ParserState::Engine => seq!['E', 'n', 'g', 'i', 'n', 'e'],
        ParserState::Setup => seq!['S', 'e', 't', 'u', 'p'],
        ParserState::Runtime => seq!['R', 'u', 'n', 't', 'i', 'm', 'e'],
        ParserState::Store => seq!['S', 't', 'o', 'r', 'e'],
        ParserState::Hints => seq!['H', 'i', 'n', 't', 's'],
        ParserState::Genre => seq!['G', 'e', 'n', 'r', 'e'],
        ParserState::Tags => seq!['T', 'a', 'g', 's'],
        ParserState::Year => seq!['Y', 'e', 'a', 'r'],
        ParserState::Dev => seq!['D', 'e', 'v'],
        ParserState::Publisher => seq!['P', 'u', 'b', 'l', 'i', 's', 'h', 'e', 'r'],
        ParserState::Version => seq!['V', 'e', 'r', 's', 'i', 'o', 'n'],
        ParserState::Status => seq!['S', 't', 'a', 't', 'u', 's'],
        ParserState::Added => seq!['A', 'd', 'd', 'e', 'd'],
        ParserState::Updated => seq!['U', 'p', 'd', 'a', 't', 'e', 'd'],
    }
}

/// The separator between the items of a list-valued field.
pub open spec fn separator_of(s: ParserState) -> char {
    if s == ParserState::Store {
        ' '
    } else {
        ','
    }
}

/// What follows the marker `key` on `line`, or `None` where the line does not carry it.
/// A line carries the field when it is the marker alone, or the marker, a tab, and the value.
pub open spec fn field_raw(key: Seq<char>, line: Seq<char>) -> Option<Seq<char>> {
    if line == key {
        Some(Seq::empty())
    } else if line.len() > key.len() && line.subrange(0, key.len() as int) == key
        && line[key.len() as int] == '\t' {
        Some(line.subrange(key.len() as int + 1, line.len() as int))
    } else {
        None
    }
}

/// `g` with the field at `s` set from the raw value `raw`: scalar fields take it trimmed,
/// list fields take its items.
pub open spec fn set_field(g: GameView, s: ParserState, raw: Seq<char>) -> GameView {
    match s {
        ParserState::Name => GameView { name: trim(raw), ..g },
        ParserState::Cover => GameView { cover: trim(raw), ..g },
        ParserState::Engine => GameView { engine: trim(raw), ..g },
        ParserState::Setup => GameView { setup: trim(raw), ..g },
        ParserState::Runtime => GameView { runtime: trim(raw), ..g },
        ParserState::Store => GameView { stores: items_of(raw, separator_of(s)), ..g },
        ParserState::Hints => GameView { hints: items_of(raw, separator_of(s)), ..g },
        ParserState::Genre => GameView { genres: items_of(raw, separator_of(s)), ..g },
        ParserState::Tags => GameView { tags: items_of(raw, separator_of(s)), ..g },
        ParserState::Year => GameView { year: trim(raw), ..g },
        ParserState::Dev => GameView { dev: trim(raw), ..g },
        ParserState::Publisher => GameView { publi: trim(raw), ..g },
        ParserState::Version => GameView { version: trim(raw), ..g },
        ParserState::Status => GameView { status: trim(raw), ..g },
        ParserState::Added => GameView { added: trim(raw), ..g },
        ParserState::Updated => GameView { updated: trim(raw), ..g },
    }
}

/// The outcome of reading `line` at position `s`: the record with that field set,
/// or `None` where the line does not carry the field.
pub open spec fn interpret(g: GameView, s: ParserState, line: Seq<char>) -> Option<GameView> {
    match field_raw(key_of(s), line) {
        Some(raw) => Some(set_field(g, s, raw)),
        None => None,
    }
}

impl ParserState {
    /// The position after this one in the fixed cycle.
    pub fn next(&self) -> (r: ParserState)
        ensures
            r == next_state(*self),
    {
        match self {
            ParserState::Name => ParserState::Cover,
            ParserState::Cover => ParserState::Engine,
            ParserState::Engine => ParserState::Setup,
            ParserState::Setup => ParserState::Runtime,
            ParserState::Runtime => ParserState::Store,
            ParserState::Store => ParserState::Hints,
            ParserState::Hints => ParserState::Genre,
            ParserState::Genre => ParserState::Tags,
            ParserState::Tags => ParserState::Year,
            ParserState::Year => ParserState::Dev,
            ParserState::Dev => ParserState::Publisher,
            ParserState::Publisher => ParserState::Version,
            ParserState::Version => ParserState::Status,
            ParserState::Status => ParserState::Added,
            ParserState::Added => ParserState::Updated,
            ParserState::Updated => ParserState::Name,
        }
    }

    /// The marker of this field, as characters.
    pub fn key(&self) -> (r: Vec<char>)
        ensures
            r@ == key_of(*self),
    {
        let k: &str = match self {
            ParserState::Name => "Name",
            ParserState::Cover => "Cover",
            ParserState::Engine => "Engine",
            ParserState::Setup => "Setup",
            ParserState::Runtime => "Runtime",
            ParserState::Store => "Store",
            ParserState::Hints => "Hints",
            ParserState::Genre => "Genre",
            ParserState::Tags => "Tags",
            ParserState::Year => "Year",
            ParserState::Dev => "Dev",
            ParserState::Publisher => "Publisher",
            ParserState::Version => "Version",
            ParserState::Status => "Status",
            ParserState::Added => "Added",
            ParserState::Updated => "Updated",
        };
        proof {
            reveal_strlit("Name");
            reveal_strlit("Cover");
            reveal_strlit("Engine");
            reveal_strlit("Setup");
            reveal_strlit("Runtime");
            reveal_strlit("Store");
            reveal_strlit("Hints");
            reveal_strlit("Genre");
            reveal_strlit("Tags");
            reveal_strlit("Year");
            reveal_strlit("Dev");
            reveal_strlit("Publisher");
            reveal_strlit("Version");
            reveal_strlit("Status");
            reveal_strlit("Added");
            reveal_strlit("Updated");
        }
        let r = chars_of(k);
        assert(r@ =~= key_of(*self));
        r
    }
}

/// What follows `key` on `line`, as `field_raw` gives it.
pub fn raw_value(key: &[char], line: &[char]) -> (r: Option<Vec<char>>)
    ensures
        field_raw(key@, line@) == match r {
            Some(v) => Some(v@),
            None => None::<Seq<char>>,
        },
{
    let k: usize = key.len();
    let n: usize = line.len();
    if n < k {
        return None;
    }
    let mut i: usize = 0;
    while i < k
        invariant
            i <= k <= n,
            k == key@.len(),
            n == line@.len(),
            forall|j: int| 0 <= j < i ==> line@[j] == key@[j],
        decreases k - i,
    {
        if line[i] != key[i] {
            assert(line@.subrange(0, k as int)[i as int] != key@[i as int]);
            return None;
        }
        i = i + 1;
    }
    assert(line@.subrange(0, k as int) =~= key@);
    if n == k {
        assert(line@ =~= key@);
        Some(Vec::new())
    } else if line[k] == '\t' {
        Some(crate::text::slice_of(line, k + 1, n))
    } else {
        None
    }
}

/// The strings holding the given character sequences, in order.
pub fn strings_of(items: &Vec<Vec<char>>) -> (r: Vec<String>)
    ensures
        strings_view(r@) == items@.map_values(|v: Vec<char>| v@),
{
    let mut r: Vec<String> = Vec::new();
    let mut k: usize = 0;
    while k < items.len()
        invariant
            k <= items@.len(),
            r@.len() == k,
            forall|j: int| 0 <= j < k ==> #[trigger] r@[j]@ == items@[j]@,
        decreases items@.len() - k,
    {
        r.push(string_of(items[k].as_slice()));
        k = k + 1;
    }
    assert(strings_view(r@) =~= items@.map_values(|v: Vec<char>| v@));
    r
}

fn list_strings(raw: &[char], d: char) -> (r: Vec<String>)
    ensures
        strings_view(r@) == items_of(raw@, d),
{
    let items = list_items(raw, d);
    let r = strings_of(&items);
    assert(items@.map_values(|v: Vec<char>| v@) =~= items_of(raw@, d));
    r
}

fn scalar_string(raw: &[char]) -> (r: String)
    ensures
        r@ == trim(raw@),
{
    let t = trimmed(raw);
    string_of(t.as_slice())
}

/// Sets the field at `s` of `g` from the raw value `raw`, as `set_field` says.
pub fn store_field(g: &mut Game, s: ParserState, raw: &[char])
    ensures
        final(g)@ == set_field(old(g)@, s, raw@),
{
    match s {
        ParserState::Name => g.name = scalar_string(raw),
        ParserState::Cover => g.cover = scalar_string(raw),
        ParserState::Engine => g.engine = scalar_string(raw),
        ParserState::Setup => g.setup = scalar_string(raw),
        ParserState::Runtime => g.runtime = scalar_string(raw),
        ParserState::Store => g.stores = list_strings(raw, ' '),
        ParserState::Hints => g.hints = list_strings(raw, ','),
        ParserState::Genre => g.genres = list_strings(raw, ','),
        ParserState::Tags => g.tags = list_strings(raw, ','),
        ParserState::Year => g.year = scalar_string(raw),
        ParserState::Dev => g.dev = scalar_string(raw),
        ParserState::Publisher => g.publi = scalar_string(raw),
        ParserState::Version => g.version = scalar_string(raw),
        ParserState::Status => g.status = scalar_string(raw),
        ParserState::Added => g.added = scalar_string(raw),
        ParserState::Updated => g.updated = scalar_string(raw),
    }
}

/// Reads `line` at position `s` into `g`: true, with the field set, where the line
/// carries that field; false, with `g` unchanged, where it does not.
pub fn interpret_line(g: &mut Game, s: ParserState, line: &[char]) -> (ok: bool)
    ensures
        ok == interpret(old(g)@, s, line@).is_some(),
        ok ==> final(g)@ == interpret(old(g)@, s, line@).unwrap(),
        !ok ==> final(g)@ == old(g)@,
{
    let key = s.key();
    match raw_value(key.as_slice(), line) {
        Some(raw) => {
            store_field(g, s, raw.as_slice());
            true
        },
        None => false,
    }
}

} // verus!
