use vstd::prelude::*;

verus! {

/// The mathematical content of one symbol: its name (as bytes) and its
/// offset, `None` until resolved.
pub struct SymbolV {
    pub name: Seq<u8>,
    pub offset: Option<u32>,
}

/// What kind of thing a symbol names. Labels are the only kind.
#[derive(Copy, Clone, Debug, PartialEq, Eq, Structural)]
pub enum SymbolType {
    Label,
}

/// A named location. `offset` stays `None` until the assembler resolves it.
#[derive(Clone, Debug, PartialEq)]
pub struct Symbol {
    pub name: Vec<u8>,
    pub offset: Option<u32>,
    pub symbol_type: SymbolType,
}

impl View for Symbol {
    type V = SymbolV;

    open spec fn view(&self) -> SymbolV {
        SymbolV { name: self.name@, offset: self.offset }
    }
}

impl Symbol {
    /// A fresh symbol whose offset is not yet known. The offset argument is
    /// accepted for parity with `new_with_offset` and ignored.
    pub fn new(name: Vec<u8>, symbol_type: SymbolType, _offset: u32) -> (r: Symbol)
        ensures
            r@.name == name@,
            r@.offset is None,
    {
        Symbol { name, symbol_type, offset: None }
    }

    /// A symbol whose offset is known at declaration time.
    pub fn new_with_offset(name: Vec<u8>, symbol_type: SymbolType, offset: u32) -> (r: Symbol)
        ensures
            r@.name == name@,
            r@.offset == Some(offset),
    {
        Symbol { name, symbol_type, offset: Some(offset) }
    }
}

/// Whether a table holds a symbol of the given name.
pub open spec fn table_has(t: Seq<SymbolV>, name: Seq<u8>) -> bool {
    exists|i: int| 0 <= i < t.len() && t[i].name == name
}

/// The offset of the first symbol of the given name, `None` when the name is
/// absent or its offset is unresolved.
pub open spec fn table_value(t: Seq<SymbolV>, name: Seq<u8>) -> Option<u32>
    decreases t.len(),
{
    if t.len() == 0 {
        None
    } else if t[0].name == name {
        t[0].offset
    } else {
        table_value(t.drop_first(), name)
    }
}

/// The table with the offset of the first symbol of the given name replaced;
/// unchanged when the name is absent.
pub open spec fn table_set(t: Seq<SymbolV>, name: Seq<u8>, offset: u32) -> Seq<SymbolV>
    decreases t.len(),
{
    if t.len() == 0 {
        t
    } else if t[0].name == name {
        seq![SymbolV { name: t[0].name, offset: Some(offset) }] + t.drop_first()
    } else {
        seq![t[0]] + table_set(t.drop_first(), name, offset)
    }
}

/// An insertion-ordered collection of symbols; lookup by name is a linear
/// scan over the first match.
#[derive(Clone, Debug, PartialEq)]
pub struct SymbolTable {
    pub symbols: Vec<Symbol>,
}

impl View for SymbolTable {
    type V = Seq<SymbolV>;

    open spec fn view(&self) -> Seq<SymbolV> {
        self.symbols@.map_values(|s: Symbol| s@)
    }
}

/// Whether two byte strings hold the same bytes.
pub fn bytes_eq(a: &[u8], b: &[u8]) -> (r: bool)
    ensures
        r == (a@ == b@),
{
    if a.len() != b.len() {
        proof {
            assert(a@.len() != b@.len());
        }
        return false;
    }
    let mut i: usize = 0;
    while i < a.len()
        invariant
            0 <= i <= a@.len(),
            a@.len() == b@.len(),
            forall|j: int| 0 <= j < i ==> a@[j] == b@[j],
        decreases a@.len() - i,
    {
        if a[i] != b[i] {
            return false;
        }
        i = i + 1;
    }
    proof {
        assert(a@ =~= b@);
    }
    true
}

impl SymbolTable {
    /// An empty table.
    pub fn new() -> (r: SymbolTable)
        ensures
            r@ == Seq::<SymbolV>::empty(),
    {
        let r = SymbolTable { symbols: Vec::new() };
        proof {
            assert(r@ =~= Seq::<SymbolV>::empty());
        }
        r
    }

    /// Appends a symbol; the caller guards against duplicates.
    pub fn add_symbol(&mut self, s: Symbol)
        ensures
            final(self)@ == old(self)@.push(s@),
    {
        let ghost old_view = self@;
        self.symbols.push(s);
        proof {
            assert(self@ =~= old_view.push(s@));
        }
    }

    /// Whether a symbol of this name has been declared.
    pub fn has_symbol(&self, s: &[u8]) -> (r: bool)
        ensures
            r == table_has(self@, s@),
    {
        let mut i: usize = 0;
        while i < self.symbols.len()
            invariant
                0 <= i <= self.symbols@.len(),
                self@.len() == self.symbols@.len(),
                forall|j: int| 0 <= j < i ==> self@[j].name != s@,
            decreases self.symbols@.len() - i,
        {
            if bytes_eq(self.symbols[i].name.as_slice(), s) {
                assert(self@[i as int].name == s@);
                return true;
            }
            i = i + 1;
        }
        false
    }

    /// The offset of the first symbol of this name, `None` when absent or
    /// unresolved.
    pub fn symbol_value(&self, s: &[u8]) -> (r: Option<u32>)
        ensures
            r == table_value(self@, s@),
    {
        proof {
            assert(self@.skip(0) =~= self@);
        }
        let mut i: usize = 0;
        while i < self.symbols.len()
            invariant
                0 <= i <= self.symbols@.len(),
                self@.len() == self.symbols@.len(),
                forall|j: int| 0 <= j < i ==> self@[j].name != s@,
                table_value(self@, s@) == table_value(self@.skip(i as int), s@),
            decreases self.symbols@.len() - i,
        {
            if bytes_eq(self.symbols[i].name.as_slice(), s) {
                proof {
                    assert(self@.skip(i as int)[0] == self@[i as int]);
                }
                return self.symbols[i].offset;
            }
            proof {
                assert(self@.skip(i as int).drop_first() =~= self@.skip(i + 1));
            }
            i = i + 1;
        }
        proof {
            assert(self@.skip(i as int).len() == 0);
        }
        None
    }

    /// Resolves the offset of the first symbol of this name in place; returns
    /// whether such a symbol was present.
    pub fn set_symbol_offset(&mut self, s: &[u8], offset: u32) -> (r: bool)
        ensures
            final(self)@ == table_set(old(self)@, s@, offset),
            r == table_has(old(self)@, s@),
    {
        let ghost orig = self@;
        proof {
            assert(orig.skip(0) =~= orig);
            assert(orig.take(0) + table_set(orig.skip(0), s@, offset) =~= table_set(
                orig,
                s@,
                offset,
            ));
        }
        let mut i: usize = 0;
        while i < self.symbols.len()
            invariant
                0 <= i <= self.symbols@.len(),
                self@.len() == self.symbols@.len(),
                self@ == orig,
                old(self)@ == orig,
                forall|j: int| 0 <= j < i ==> self@[j].name != s@,
                table_set(orig, s@, offset) == orig.take(i as int) + table_set(
                    orig.skip(i as int),
                    s@,
                    offset,
                ),
            decreases self.symbols@.len() - i,
        {
            let ghost hit = SymbolV { name: orig[i as int].name, offset: Some(offset) };
            if bytes_eq(self.symbols[i].name.as_slice(), s) {
                proof {
                    assert(orig.skip(i as int)[0] == orig[i as int]);
                    assert(orig[i as int].name == s@);
                    assert(orig.skip(i as int).drop_first() =~= orig.skip(i + 1));
                    assert(table_set(orig.skip(i as int), s@, offset) =~= seq![hit] + orig.skip(
                        i + 1,
                    ));
                }
                self.symbols[i].offset = Some(offset);
                proof {
                    assert(self@ =~= orig.update(i as int, hit));
                    assert(orig.update(i as int, hit) =~= orig.take(i as int) + (seq![hit]
                        + orig.skip(i + 1)));
                    assert(self@ == table_set(orig, s@, offset));
                    assert(table_has(orig, s@));
                }
                return true;
            }
            proof {
                assert(orig.skip(i as int)[0] == orig[i as int]);
                assert(orig[i as int].name != s@);
                assert(orig.skip(i as int).drop_first() =~= orig.skip(i + 1));
                assert(table_set(orig.skip(i as int), s@, offset) == seq![orig[i as int]]
                    + table_set(orig.skip(i + 1), s@, offset));
                assert(orig.take(i as int) + (seq![orig[i as int]] + table_set(
                    orig.skip(i + 1),
                    s@,
                    offset,
                )) =~= orig.take(i + 1) + table_set(orig.skip(i + 1), s@, offset));
            }
            i = i + 1;
        }
        proof {
            assert(orig.skip(i as int).len() == 0);
            assert(orig.take(i as int) + table_set(orig.skip(i as int), s@, offset) =~= orig);
            assert(!table_has(orig, s@));
        }
        false
    }
}

/// Looking a name up yields `Some` exactly when a symbol of that name with a
/// resolved offset stands in the table.
pub proof fn lemma_table_value_some_implies_has(t: Seq<SymbolV>, name: Seq<u8>)
    ensures
        table_value(t, name) is Some ==> table_has(t, name),
    decreases t.len(),
{
    if t.len() > 0 && t[0].name != name {
        lemma_table_value_some_implies_has(t.drop_first(), name);
        if table_value(t, name) is Some {
            assert(table_has(t.drop_first(), name));
            let i = choose|i: int| 0 <= i < t.drop_first().len() && t.drop_first()[i].name == name;
            assert(t[i + 1].name == name);
        }
    }
}

/// No two symbols in the table share a name.
pub open spec fn unique_names(t: Seq<SymbolV>) -> bool {
    forall|i: int, j: int| 0 <= i < j < t.len() ==> t[i].name != t[j].name
}

/// Appending a fresh name makes it resolvable to exactly its offset.
pub proof fn lemma_table_value_push_same(t: Seq<SymbolV>, s: SymbolV)
    requires
        !table_has(t, s.name),
    ensures
        table_value(t.push(s), s.name) == s.offset,
        table_has(t.push(s), s.name),
    decreases t.len(),
{
    assert(t.push(s)[t.len() as int].name == s.name);
    if t.len() == 0 {
        assert(t.push(s)[0] == s);
    } else {
        assert(t[0].name != s.name);
        lemma_table_value_push_same(t.drop_first(), s);
        assert(t.push(s).drop_first() =~= t.drop_first().push(s));
        assert(t.push(s)[0] == t[0]);
    }
}

/// Appending a symbol leaves every other name's lookup unchanged.
pub proof fn lemma_table_value_push_other(t: Seq<SymbolV>, s: SymbolV, name: Seq<u8>)
    requires
        s.name != name,
    ensures
        table_value(t.push(s), name) == table_value(t, name),
        table_has(t.push(s), name) == table_has(t, name),
    decreases t.len(),
{
    if t.len() == 0 {
        assert(t.push(s)[0] == s);
        assert(t.push(s).len() == 1);
        assert(t.push(s).drop_first() =~= Seq::<SymbolV>::empty());
        assert(table_value(t.push(s), name) == table_value(Seq::<SymbolV>::empty(), name));
        if table_has(t.push(s), name) {
            let i = choose|i: int| 0 <= i < t.push(s).len() && t.push(s)[i].name == name;
            assert(false);
        }
    } else {
        assert(t.push(s)[0] == t[0]);
        assert(t.push(s).drop_first() =~= t.drop_first().push(s));
        lemma_table_value_push_other(t.drop_first(), s, name);
        if table_has(t.push(s), name) {
            let i = choose|i: int| 0 <= i < t.push(s).len() && t.push(s)[i].name == name;
            if i < t.len() {
                assert(t[i].name == name);
            } else {
                assert(false);
            }
        }
        if table_has(t, name) {
            let i = choose|i: int| 0 <= i < t.len() && t[i].name == name;
            assert(t.push(s)[i].name == name);
        }
    }
}

/// Resolving one name's offset leaves every other name's lookup unchanged,
/// and changes no name at all.
pub proof fn lemma_table_set_other(t: Seq<SymbolV>, m: Seq<u8>, off: u32, name: Seq<u8>)
    requires
        m != name,
    ensures
        table_value(table_set(t, m, off), name) == table_value(t, name),
    decreases t.len(),
{
    if t.len() > 0 {
        lemma_table_set_other(t.drop_first(), m, off, name);
        if t[0].name == m {
            let u = seq![SymbolV { name: t[0].name, offset: Some(off) }] + t.drop_first();
            assert(u[0].name == m);
            assert(u.drop_first() =~= t.drop_first());
        } else {
            let u = seq![t[0]] + table_set(t.drop_first(), m, off);
            assert(u[0] == t[0]);
            assert(u.drop_first() =~= table_set(t.drop_first(), m, off));
        }
    }
}

/// Resolving an offset preserves the set of names in the table.
pub proof fn lemma_table_set_names(t: Seq<SymbolV>, m: Seq<u8>, off: u32)
    ensures
        table_set(t, m, off).len() == t.len(),
        forall|i: int| 0 <= i < t.len() ==> #[trigger] table_set(t, m, off)[i].name == t[i].name,
    decreases t.len(),
{
    if t.len() > 0 {
        lemma_table_set_names(t.drop_first(), m, off);
        if t[0].name == m {
            let u = seq![SymbolV { name: t[0].name, offset: Some(off) }] + t.drop_first();
            assert(forall|i: int|
                0 <= i < t.len() ==> #[trigger] u[i].name == t[i].name) by {
                assert(u[0].name == t[0].name);
                assert(forall|i: int| 1 <= i < t.len() ==> u[i] == t.drop_first()[i - 1]);
            }
        } else {
            let u = seq![t[0]] + table_set(t.drop_first(), m, off);
            assert(forall|i: int|
                0 <= i < t.len() ==> #[trigger] u[i].name == t[i].name) by {
                assert(u[0] == t[0]);
                assert(forall|i: int|
                    1 <= i < t.len() ==> u[i] == table_set(t.drop_first(), m, off)[i - 1]);
            }
        }
    }
}

} // verus!
