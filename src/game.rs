use vstd::prelude::*;

verus! {

/// One catalogued entry: a value for each field of the schema.
pub struct Game {
    pub name: String,
    pub cover: String,
    pub engine: String,
    pub setup: String,
    pub runtime: String,
    pub stores: Vec<String>,
    pub hints: Vec<String>,
    pub genres: Vec<String>,
    pub tags: Vec<String>,
    pub year: String,
    pub dev: String,
    pub publi: String,
    pub version: String,
    pub status: String,
    pub added: String,
    pub updated: String,
}

/// The contents of a `Game`, as characters.
pub struct GameView {
    pub name: Seq<char>,
    pub cover: Seq<char>,
    pub engine: Seq<char>,
    pub setup: Seq<char>,
    pub runtime: Seq<char>,
    pub stores: Seq<Seq<char>>,
    pub hints: Seq<Seq<char>>,
    pub genres: Seq<Seq<char>>,
    pub tags: Seq<Seq<char>>,
    pub year: Seq<char>,
    pub dev: Seq<char>,
    pub publi: Seq<char>,
    pub version: Seq<char>,
    pub status: Seq<char>,
    pub added: Seq<char>,
    pub updated: Seq<char>,
}

pub open spec fn strings_view(v: Seq<String>) -> Seq<Seq<char>> {
    v.map_values(|s: String| s@)
}

/// A record with every field empty.
pub open spec fn empty_game() -> GameView {
    GameView {
        name: Seq::empty(),
        cover: Seq::empty(),
        engine: Seq::empty(),
        setup: Seq::empty(),
        runtime: Seq::empty(),
        stores: Seq::empty(),
        hints: Seq::empty(),
        genres: Seq::empty(),
        tags: Seq::empty(),
        year: Seq::empty(),
        dev: Seq::empty(),
        publi: Seq::empty(),
        version: Seq::empty(),
        status: Seq::empty(),
        added: Seq::empty(),
        updated: Seq::empty(),
    }
}

impl View for Game {
    type V = GameView;

    open spec fn view(&self) -> GameView {
        GameView {
            name: self.name@,
            cover: self.cover@,
            engine: self.engine@,
            setup: self.setup@,
            runtime: self.runtime@,
            stores: strings_view(self.stores@),
            hints: strings_view(self.hints@),
            genres: strings_view(self.genres@),
            tags: strings_view(self.tags@),
            year: self.year@,
            dev: self.dev@,
            publi: self.publi@,
            version: self.version@,
            status: self.status@,
            added: self.added@,
            updated: self.updated@,
        }
    }
}

impl Game {
    /// A record with every field empty.
    pub fn empty() -> (r: Game)
        ensures
            r@ == empty_game(),
    {
        let r = Game {
            name: String::new(),
            cover: String::new(),
            engine: String::new(),
            setup: String::new(),
            runtime: String::new(),
            stores: Vec::new(),
            hints: Vec::new(),
            genres: Vec::new(),
            tags: Vec::new(),
            year: String::new(),
            dev: String::new(),
            publi: String::new(),
            version: String::new(),
            status: String::new(),
            added: String::new(),
            updated: String::new(),
        };
        assert(strings_view(r.stores@) =~= Seq::<Seq<char>>::empty());
        assert(strings_view(r.hints@) =~= Seq::<Seq<char>>::empty());
        assert(strings_view(r.genres@) =~= Seq::<Seq<char>>::empty());
        assert(strings_view(r.tags@) =~= Seq::<Seq<char>>::empty());
        r
    }
}

} // verus!
