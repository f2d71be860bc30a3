//! What a declaration is compiled with: library paths, defined symbols and localizations.
use vstd::prelude::*;

verus! {

/// Paths searched for libraries, symbols that are defined, and localization pairs.
/// A symbol is defined at most once; a localization key has at most one value.
#[derive(Debug)]
pub struct Arguments {
    pub library_paths: Vec<String>,
    pub symbols: Vec<String>,
    pub localizations: Vec<(String, String)>,
}

pub open spec fn strings_view(v: Seq<String>) -> Seq<Seq<char>> {
    v.map_values(|s: String| s@)
}

pub open spec fn pairs_view(v: Seq<(String, String)>) -> Seq<(Seq<char>, Seq<char>)> {
    v.map_values(|p: (String, String)| (p.0@, p.1@))
}

/// The symbols with `symbol` defined: unchanged if it already was.
pub open spec fn with_symbol(symbols: Seq<Seq<char>>, symbol: Seq<char>) -> Seq<Seq<char>> {
    if symbols.contains(symbol) {
        symbols
    } else {
        symbols.push(symbol)
    }
}

/// The localizations with `key` mapped to `value`: an existing key takes the new value in
/// its place; a new key comes last.
pub open spec fn with_localization(
    pairs: Seq<(Seq<char>, Seq<char>)>,
    key: Seq<char>,
    value: Seq<char>,
) -> Seq<(Seq<char>, Seq<char>)> {
    if exists|i: int| 0 <= i < pairs.len() && (#[trigger] pairs[i]).0 == key {
        let i = choose|i: int| 0 <= i < pairs.len() && (#[trigger] pairs[i]).0 == key;
        pairs.update(i, (key, value))
    } else {
        pairs.push((key, value))
    }
}

pub open spec fn keys_unique(pairs: Seq<(Seq<char>, Seq<char>)>) -> bool {
    forall|i: int, j: int| 0 <= i < j < pairs.len() ==> (#[trigger] pairs[i]).0 != (#[trigger] pairs[j]).0
}

pub open spec fn no_repeats(s: Seq<Seq<char>>) -> bool {
    forall|i: int, j: int| 0 <= i < j < s.len() ==> #[trigger] s[i] != #[trigger] s[j]
}

/// The value that `key` is mapped to, if any.
pub open spec fn localization_of(pairs: Seq<(Seq<char>, Seq<char>)>, key: Seq<char>) -> Option<Seq<char>> {
    if exists|i: int| 0 <= i < pairs.len() && (#[trigger] pairs[i]).0 == key {
        let i = choose|i: int| 0 <= i < pairs.len() && (#[trigger] pairs[i]).0 == key;
        Some(pairs[i].1)
    } else {
        None
    }
}

/// Defining a symbol a second time changes nothing, and a defined symbol is among the symbols.
pub proof fn lemma_define_symbol_idempotent(symbols: Seq<Seq<char>>, symbol: Seq<char>)
    ensures
        with_symbol(with_symbol(symbols, symbol), symbol) == with_symbol(symbols, symbol),
        with_symbol(symbols, symbol).contains(symbol),
{
    if !symbols.contains(symbol) {
        assert(symbols.push(symbol)[symbols.len() as int] == symbol);
    }
}

/// After a key is mapped to a value, the key reads as that value, every other key reads as
/// before, and no key occurs twice.
pub proof fn lemma_localization_read_back(
    pairs: Seq<(Seq<char>, Seq<char>)>,
    key: Seq<char>,
    value: Seq<char>,
    other: Seq<char>,
)
    requires
        keys_unique(pairs),
    ensures
        keys_unique(with_localization(pairs, key, value)),
        localization_of(with_localization(pairs, key, value), key) == Some(value),
        other != key ==> localization_of(with_localization(pairs, key, value), other)
            == localization_of(pairs, other),
{
    let r = with_localization(pairs, key, value);
    if exists|i: int| 0 <= i < pairs.len() && (#[trigger] pairs[i]).0 == key {
        let i = choose|i: int| 0 <= i < pairs.len() && (#[trigger] pairs[i]).0 == key;
        assert(r == pairs.update(i, (key, value)));
        assert forall|a: int, b: int| 0 <= a < b < r.len() implies (#[trigger] r[a]).0 != (#[trigger] r[b]).0 by {
            assert(pairs[a].0 != pairs[b].0);
        }
        assert(r[i].0 == key);
        let k = choose|k: int| 0 <= k < r.len() && (#[trigger] r[k]).0 == key;
        assert(k == i) by {
            if k != i {
                if k < i {
                    assert(r[k].0 != r[i].0);
                } else {
                    assert(r[i].0 != r[k].0);
                }
            }
        }
        if other != key {
            if exists|j: int| 0 <= j < pairs.len() && (#[trigger] pairs[j]).0 == other {
                let j = choose|j: int| 0 <= j < pairs.len() && (#[trigger] pairs[j]).0 == other;
                assert(r[j].0 == other);
                let m = choose|m: int| 0 <= m < r.len() && (#[trigger] r[m]).0 == other;
                assert(m == j) by {
                    if m != j {
                        if m < j {
                            assert(r[m].0 != r[j].0);
                        } else {
                            assert(r[j].0 != r[m].0);
                        }
                    }
                }
            } else {
                assert forall|m: int| 0 <= m < r.len() implies (#[trigger] r[m]).0 != other by {
                    if m != i {
                        assert(r[m] == pairs[m]);
                    }
                }
            }
        }
    } else {
        assert(r == pairs.push((key, value)));
        assert forall|a: int, b: int| 0 <= a < b < r.len() implies (#[trigger] r[a]).0 != (#[trigger] r[b]).0 by {
            if b < pairs.len() {
                assert(pairs[a].0 != pairs[b].0);
            } else {
                assert(r[a] == pairs[a]);
            }
        }
        let n = pairs.len() as int;
        assert(r[n].0 == key);
        let k = choose|k: int| 0 <= k < r.len() && (#[trigger] r[k]).0 == key;
        assert(k == n) by {
            if k != n {
                assert(r[k] == pairs[k]);
            }
        }
        if other != key {
            if exists|j: int| 0 <= j < pairs.len() && (#[trigger] pairs[j]).0 == other {
                let j = choose|j: int| 0 <= j < pairs.len() && (#[trigger] pairs[j]).0 == other;
                assert(r[j] == pairs[j]);
                let m = choose|m: int| 0 <= m < r.len() && (#[trigger] r[m]).0 == other;
                assert(m == j) by {
                    if m != j {
                        if m < n {
                            assert(r[m] == pairs[m]);
                            if m < j {
                                assert(pairs[m].0 != pairs[j].0);
                            } else {
                                assert(pairs[j].0 != pairs[m].0);
                            }
                        }
                    }
                }
            } else {
                assert forall|m: int| 0 <= m < r.len() implies (#[trigger] r[m]).0 != other by {
                    if m < n {
                        assert(r[m] == pairs[m]);
                    }
                }
            }
        }
    }
}

impl Arguments {
    pub open spec fn library_paths_view(&self) -> Seq<Seq<char>> {
        strings_view(self.library_paths@)
    }

    pub open spec fn symbols_view(&self) -> Seq<Seq<char>> {
        strings_view(self.symbols@)
    }

    pub open spec fn localizations_view(&self) -> Seq<(Seq<char>, Seq<char>)> {
        pairs_view(self.localizations@)
    }

    /// No symbol twice, no localization key twice.
    pub open spec fn wf(&self) -> bool {
        no_repeats(self.symbols_view()) && keys_unique(self.localizations_view())
    }

    pub fn new() -> (r: Arguments)
        ensures
            r.wf(),
            r.library_paths_view().len() == 0,
            r.symbols_view().len() == 0,
            r.localizations_view().len() == 0,
    {
        Arguments { library_paths: Vec::new(), symbols: Vec::new(), localizations: Vec::new() }
    }

    /// Forgets every path, symbol and localization.
    pub fn clear(&mut self)
        ensures
            final(self).wf(),
            final(self).library_paths_view().len() == 0,
            final(self).symbols_view().len() == 0,
            final(self).localizations_view().len() == 0,
    {
        self.library_paths.clear();
        self.symbols.clear();
        self.localizations.clear();
    }

    /// Adds a path to search for libraries, after those added before.
    pub fn add_library_path(&mut self, path: &str)
        requires
            old(self).wf(),
        ensures
            final(self).wf(),
            final(self).library_paths_view() == old(self).library_paths_view().push(path@),
            final(self).symbols_view() == old(self).symbols_view(),
            final(self).localizations_view() == old(self).localizations_view(),
    {
        let ghost before = self.library_paths@;
        self.library_paths.push(path.to_owned());
        proof {
            assert(strings_view(self.library_paths@) =~= strings_view(before).push(path@));
        }
    }

    /// Defines a symbol; defining it again changes nothing.
    #[verifier::loop_isolation(false)]
    pub fn define_symbol(&mut self, symbol: &str)
        requires
            old(self).wf(),
        ensures
            final(self).wf(),
            final(self).symbols_view() == with_symbol(old(self).symbols_view(), symbol@),
            final(self).library_paths_view() == old(self).library_paths_view(),
            final(self).localizations_view() == old(self).localizations_view(),
    {
        let ghost names = strings_view(self.symbols@);
        let mut i: usize = 0;
        while i < self.symbols.len()
            invariant
                i <= self.symbols@.len(),
                *self == *old(self),
                names == strings_view(self.symbols@),
                forall|j: int| 0 <= j < i ==> names[j] != symbol@,
            decreases self.symbols@.len() - i,
        {
            if crate::avatar::transformer::dependencies::str_equal(self.symbols[i].as_str(), symbol) {
                proof {
                    assert(names[i as int] == symbol@);
                    assert(names.contains(symbol@));
                }
                return;
            }
            i = i + 1;
        }
        let ghost before = self.symbols@;
        self.symbols.push(symbol.to_owned());
        proof {
            assert(!names.contains(symbol@));
            assert(strings_view(self.symbols@) =~= names.push(symbol@));
            assert(no_repeats(self.symbols_view()));
        }
    }

    /// Maps a localization key to a value, replacing the value it had.
    #[verifier::loop_isolation(false)]
    pub fn define_localization(&mut self, key: &str, value: &str)
        requires
            old(self).wf(),
        ensures
            final(self).wf(),
            final(self).localizations_view() == with_localization(
                old(self).localizations_view(),
                key@,
                value@,
            ),
            final(self).library_paths_view() == old(self).library_paths_view(),
            final(self).symbols_view() == old(self).symbols_view(),
    {
        let ghost pairs = pairs_view(self.localizations@);
        let mut i: usize = 0;
        while i < self.localizations.len()
            invariant
                i <= self.localizations@.len(),
                *self == *old(self),
                pairs == pairs_view(self.localizations@),
                keys_unique(pairs),
                forall|j: int| 0 <= j < i ==> pairs[j].0 != key@,
            decreases self.localizations@.len() - i,
        {
            if crate::avatar::transformer::dependencies::str_equal(self.localizations[i].0.as_str(), key) {
                self.localizations.set(i, (key.to_owned(), value.to_owned()));
                proof {
                    assert(pairs[i as int].0 == key@);
                    let c = choose|c: int| 0 <= c < pairs.len() && (#[trigger] pairs[c]).0 == key@;
                    if c != i {
                        if c < i {
                            assert(pairs[c].0 != key@);
                        } else {
                            assert(pairs[i as int].0 != pairs[c].0);
                        }
                    }
                    assert(pairs_view(self.localizations@) =~= pairs.update(i as int, (key@, value@)));
                    assert(keys_unique(self.localizations_view()));
                }
                return;
            }
            i = i + 1;
        }
        self.localizations.push((key.to_owned(), value.to_owned()));
        proof {
            assert(pairs_view(self.localizations@) =~= pairs.push((key@, value@)));
            assert(keys_unique(self.localizations_view()));
        }
    }
}

/// The format of a declaration, with the paths searched for its libraries.
#[derive(Debug)]
pub enum DeclarationFormat {
    Sexpr(Vec<String>),
    Lua(Vec<String>),
}

} // verus!
