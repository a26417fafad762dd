use vstd::prelude::*;

verus! {

/// What a symbol names.
#[derive(Debug, Clone, Copy, PartialEq, Eq, Hash, Structural)]
pub enum SymbolType {
    Label,
}

/// A named symbol of an assembly program.
#[derive(Debug, Clone, PartialEq, Eq, Hash)]
pub struct Symbol {
    pub name: String,
    pub symbol_type: SymbolType,
}

impl View for Symbol {
    type V = (Seq<char>, SymbolType);

    open spec fn view(&self) -> (Seq<char>, SymbolType) {
        (self.name@, self.symbol_type)
    }
}

impl Symbol {
    pub fn new(name: String, symbol_type: SymbolType) -> (s: Symbol)
        ensures
            s@ == (name@, symbol_type),
    {
        Symbol { name, symbol_type }
    }
}

/// The map that a list of bindings denotes: a later binding of a symbol
/// replaces an earlier one.
pub open spec fn bindings_map(b: Seq<((Seq<char>, SymbolType), u32)>) -> Map<
    (Seq<char>, SymbolType),
    u32,
>
    decreases b.len(),
{
    if b.len() == 0 {
        Map::empty()
    } else {
        bindings_map(b.drop_last()).insert(b.last().0, b.last().1)
    }
}

/// Rebinding the last binding of a key gives the map with that key bound anew.
proof fn lemma_rebind_last(
    b: Seq<((Seq<char>, SymbolType), u32)>,
    i: int,
    k: (Seq<char>, SymbolType),
    v: u32,
)
    requires
        0 <= i < b.len(),
        b[i].0 == k,
        forall|j: int| i < j < b.len() ==> b[j].0 != k,
    ensures
        bindings_map(b.update(i, (k, v))) == bindings_map(b).insert(k, v),
    decreases b.len(),
{
    let u = b.update(i, (k, v));
    if i == b.len() - 1 {
        assert(u.drop_last() =~= b.drop_last());
        assert(bindings_map(u) =~= bindings_map(b).insert(k, v));
    } else {
        lemma_rebind_last(b.drop_last(), i, k, v);
        assert(u.drop_last() =~= b.drop_last().update(i, (k, v)));
        assert(bindings_map(u) =~= bindings_map(b).insert(k, v));
    }
}

/// A table from symbols to addresses.
#[derive(Clone)]
pub struct SymbolTable {
    symbols: Vec<(Symbol, u32)>,
}

impl SymbolTable {
    pub closed spec fn bindings(&self) -> Seq<((Seq<char>, SymbolType), u32)> {
        self.symbols@.map_values(|e: (Symbol, u32)| (e.0@, e.1))
    }
}

impl View for SymbolTable {
    type V = Map<(Seq<char>, SymbolType), u32>;

    open spec fn view(&self) -> Map<(Seq<char>, SymbolType), u32> {
        bindings_map(self.bindings())
    }
}

impl SymbolTable {
    /// An empty table.
    pub fn new() -> (t: SymbolTable)
        ensures
            t@ == Map::<(Seq<char>, SymbolType), u32>::empty(),
    {
        let t = SymbolTable { symbols: Vec::new() };
        assert(t.bindings() =~= Seq::empty());
        t
    }

    /// Binds `s` to `v`, replacing any earlier binding of `s`.
    pub fn add_symbol(&mut self, s: Symbol, v: u32)
        ensures
            final(self)@ == old(self)@.insert(s@, v),
    {
        let ghost k = s@;
        let ghost b = self.bindings();
        let mut i = self.symbols.len();
        while i > 0
            invariant
                i <= self.symbols@.len(),
                b == self.bindings(),
                b.len() == self.symbols@.len(),
                *self == *old(self),
                k == s@,
                forall|j: int| i <= j < b.len() ==> b[j].0 != k,
            decreases i,
        {
            let e = &self.symbols[i - 1];
            let same = e.0.symbol_type == s.symbol_type && e.0.name == s.name;
            assert(b[i - 1] == (e.0@, e.1));
            assert(same <==> e.0@ == k);
            if same {
                proof {
                    lemma_rebind_last(b, i - 1, k, v);
                }
                let ghost old_symbols = self.symbols@;
                self.symbols.set(i - 1, (s, v));
                assert forall|j: int| 0 <= j < b.len() implies #[trigger] self.bindings()[j] == b.update(
                    i - 1,
                    (k, v),
                )[j] by {
                    if j != i - 1 {
                        assert(self.symbols@[j] == old_symbols[j]);
                    }
                }
                assert(self.bindings() =~= b.update(i - 1, (k, v)));
                return;
            }
            i = i - 1;
        }
        self.symbols.push((s, v));
        assert(self.bindings().drop_last() =~= old(self).bindings());
        assert(self.bindings().last() == (k, v));
    }

    /// The value bound to `s`, if any.
    pub fn symbol_value(&self, s: &Symbol) -> (r: Option<&u32>)
        ensures
            match r {
                Some(v) => self@.contains_key(s@) && self@[s@] == *v,
                None => !self@.contains_key(s@),
            },
    {
        let ghost b = self.bindings();
        let mut i = self.symbols.len();
        assert(b.take(i as int) =~= b);
        while i > 0
            invariant
                i <= self.symbols@.len(),
                b.len() == self.symbols@.len(),
                b == self.bindings(),
                bindings_map(b).contains_key(s@) == bindings_map(b.take(i as int)).contains_key(
                    s@,
                ),
                bindings_map(b).contains_key(s@) ==> bindings_map(b)[s@] == bindings_map(
                    b.take(i as int),
                )[s@],
            decreases i,
        {
            let e = &self.symbols[i - 1];
            assert(b[i - 1] == (e.0@, e.1));
            assert(b.take(i as int).drop_last() =~= b.take(i - 1));
            assert(b.take(i as int).last() == (e.0@, e.1));
            if e.0.symbol_type == s.symbol_type && e.0.name == s.name {
                assert(e.0@ == s@);
                return Some(&e.1);
            }
            i = i - 1;
        }
        assert(b.take(0) =~= Seq::<((Seq<char>, SymbolType), u32)>::empty());
        None
    }
}

} // verus!
