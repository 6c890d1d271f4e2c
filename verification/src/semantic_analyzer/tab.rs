//! The symbol tables of the analyzer, laid out as in Wirth's Pascal-S: `tab`
//! holds identifiers chained backwards per block, `btab` holds blocks,
//! `atab` holds array types, and `display` maps each scope level to its
//! block.
use vstd::prelude::*;
use crate::text::{lowercase_of, str_eq, string_of, to_lowercase};

verus! {

/// The kind of object an identifier denotes.
#[derive(Debug, Clone, Copy, PartialEq, Eq, Structural)]
pub enum ObjectKind {
    Constant,
    Variable,
    Type,
    Procedure,
    Function,
    Program,
}

/// The short name of an object kind, as the table dump shows it.
pub open spec fn object_kind_display(k: ObjectKind) -> Seq<char> {
    match k {
        ObjectKind::Constant => "Const"@,
        ObjectKind::Variable => "Var"@,
        ObjectKind::Type => "Type"@,
        ObjectKind::Procedure => "Proc"@,
        ObjectKind::Function => "Func"@,
        ObjectKind::Program => "Prog"@,
    }
}

impl ObjectKind {
    /// The short name of this kind: `Const`, `Var`, `Type`, `Proc`, `Func`
    /// or `Prog`.
    pub fn to_string(&self) -> (r: String)
        ensures
            r@ == object_kind_display(*self),
    {
        match self {
            ObjectKind::Constant => string_of("Const"),
            ObjectKind::Variable => string_of("Var"),
            ObjectKind::Type => string_of("Type"),
            ObjectKind::Procedure => string_of("Proc"),
            ObjectKind::Function => string_of("Func"),
            ObjectKind::Program => string_of("Prog"),
        }
    }
}

pub const TYP_NOTYPE: usize = 0;
pub const TYP_INT: usize = 1;
pub const TYP_REAL: usize = 2;
pub const TYP_BOOL: usize = 3;
pub const TYP_CHAR: usize = 4;
pub const TYP_STRING: usize = 5;

/// A row of `tab`: an identifier.
#[derive(Debug, Clone)]
pub struct TabEntry {
    pub name: String,
    pub link: usize,
    pub obj: ObjectKind,
    pub typ: usize,
    pub ref_idx: usize,
    pub normal: bool,
    pub level: usize,
    pub adr: usize,
}

/// A row of `btab`: a block.
#[derive(Debug, Clone, Copy)]
pub struct BTabEntry {
    pub last: usize,
    pub lpar: usize,
    pub psze: usize,
    pub vsze: usize,
}

/// A row of `atab`: an array type.
#[derive(Debug, Clone)]
pub struct ATabEntry {
    pub xtyp: usize,
    pub etyp: usize,
    pub eref: usize,
    pub low: i32,
    pub high: i32,
    pub elsz: usize,
    pub size: usize,
}

/// The symbol tables and the scope display.
#[derive(Debug)]
pub struct SymbolTable {
    pub tab: Vec<TabEntry>,
    pub btab: Vec<BTabEntry>,
    pub atab: Vec<ATabEntry>,
    pub display: Vec<usize>,
    pub level: usize,
}

/// An identifier row as a value.
pub struct TabEntryV {
    pub name: Seq<char>,
    pub link: usize,
    pub obj: ObjectKind,
    pub typ: usize,
    pub ref_idx: usize,
    pub normal: bool,
    pub level: usize,
    pub adr: usize,
}

impl View for TabEntry {
    type V = TabEntryV;

    open spec fn view(&self) -> TabEntryV {
        TabEntryV {
            name: self.name@,
            link: self.link,
            obj: self.obj,
            typ: self.typ,
            ref_idx: self.ref_idx,
            normal: self.normal,
            level: self.level,
            adr: self.adr,
        }
    }
}

/// The symbol tables as a value.
pub struct SymbolTableV {
    pub tab: Seq<TabEntryV>,
    pub btab: Seq<BTabEntry>,
    pub atab: Seq<ATabEntry>,
    pub display: Seq<usize>,
    pub level: usize,
}

impl View for SymbolTable {
    type V = SymbolTableV;

    open spec fn view(&self) -> SymbolTableV {
        SymbolTableV {
            tab: self.tab@.map_values(|e: TabEntry| e@),
            btab: self.btab@,
            atab: self.atab@,
            display: self.display@,
            level: self.level,
        }
    }
}

/// The first identifier named `name` on the chain that starts at `start`.
pub open spec fn chain_find(tab: Seq<TabEntryV>, start: int, name: Seq<char>) -> Option<int>
    decreases start,
{
    if start <= 0 || start >= tab.len() {
        None
    } else if tab[start].name == name {
        Some(start)
    } else if tab[start].link as int >= start {
        None
    } else {
        chain_find(tab, tab[start].link as int, name)
    }
}

/// The first identifier on the chain from `start` whose lower-case
/// spelling is that of `name`.
pub open spec fn chain_find_ci(tab: Seq<TabEntryV>, start: int, name: Seq<char>) -> Option<int>
    decreases start,
{
    if start <= 0 || start >= tab.len() {
        None
    } else if lowercase_of(tab[start].name) == lowercase_of(name) {
        Some(start)
    } else if tab[start].link as int >= start {
        None
    } else {
        chain_find_ci(tab, tab[start].link as int, name)
    }
}

impl SymbolTableV {
    /// The tables hang together: links point back, blocks point into `tab`,
    /// and every level up to the current one has a block.
    pub open spec fn wf(&self) -> bool {
        &&& self.tab.len() >= 1
        &&& self.btab.len() >= 1
        &&& self.level < self.display.len()
        &&& forall|i: int| 0 <= i < self.tab.len() ==> (#[trigger] self.tab[i]).link < (if i == 0 { 1 } else { i })
        &&& forall|b: int| 0 <= b < self.btab.len() ==> (#[trigger] self.btab[b]).last < self.tab.len()
            && self.btab[b].lpar < self.tab.len()
        &&& forall|l: int| 0 <= l < self.display.len() ==> (#[trigger] self.display[l]) < self.btab.len()
    }

    /// The block of scope level `lev`.
    pub open spec fn block_of(&self, lev: int) -> int {
        self.display[lev] as int
    }

    /// The identifier named `name` that is visible from level `lev`: the
    /// newest of the innermost level that has one.
    pub open spec fn find_from_level(&self, lev: int, name: Seq<char>) -> Option<int>
        decreases lev + 1,
    {
        if lev < 0 {
            None
        } else {
            match chain_find(self.tab, self.btab[self.block_of(lev)].last as int, name) {
                Some(i) => Some(i),
                None => self.find_from_level(lev - 1, name),
            }
        }
    }

    /// The identifier that `find` gives for `name`.
    pub open spec fn spec_find(&self, name: Seq<char>) -> Option<int> {
        self.find_from_level(self.level as int, name)
    }

    /// The identifier that `find_in_current_scope` gives for `name`.
    pub open spec fn spec_find_in_current_scope(&self, name: Seq<char>) -> Option<int> {
        chain_find_ci(self.tab, self.btab[self.block_of(self.level as int)].last as int, name)
    }

}

impl SymbolTable {
    /// The tables hang together.
    pub open spec fn wf(&self) -> bool {
        self@.wf()
    }

}


/// The reserved words that the table starts with, in order.
pub open spec fn reserved_words() -> Seq<Seq<char>> {
    seq!["AND"@, "ARRAY"@, "BEGIN"@, "CASE"@, "CONST"@, "DIV"@, "DOWNTO"@, "DO"@, "ELSE"@, "END"@, "FOR"@, "FUNCTION"@, "IF"@, "MOD"@, "NOT"@, "OF"@, "OR"@, "PROCEDURE"@, "PROGRAM"@, "RECORD"@, "REPEAT"@, "STRING"@, "THEN"@, "TO"@, "TYPE"@, "UNTIL"@, "VAR"@, "WHILE"@, "PACKED"@]
}

/// The predefined types and procedures that the global block starts
/// with, in order: name, kind, type index and size.
pub open spec fn system_entries() -> Seq<(Seq<char>, ObjectKind, usize, usize)> {
    seq![("integer"@, ObjectKind::Type, TYP_INT, 1), ("real"@, ObjectKind::Type, TYP_REAL, 1), ("boolean"@, ObjectKind::Type, TYP_BOOL, 1), ("char"@, ObjectKind::Type, TYP_CHAR, 1), ("string"@, ObjectKind::Type, TYP_STRING, 1), ("write"@, ObjectKind::Procedure, TYP_NOTYPE, 0), ("writeln"@, ObjectKind::Procedure, TYP_NOTYPE, 0), ("read"@, ObjectKind::Procedure, TYP_NOTYPE, 0), ("readln"@, ObjectKind::Procedure, TYP_NOTYPE, 0)]
}

/// An entry with the given fields.
pub open spec fn entry_is(
    e: TabEntry,
    name: Seq<char>,
    link: usize,
    obj: ObjectKind,
    typ: usize,
    ref_idx: usize,
    normal: bool,
    level: usize,
    adr: usize,
) -> bool {
    &&& e.name@ == name
    &&& e.link == link
    &&& e.obj == obj
    &&& e.typ == typ
    &&& e.ref_idx == ref_idx
    &&& e.normal == normal
    &&& e.level == level
    &&& e.adr == adr
}

/// The tables as `SymbolTable::new` makes them: the empty entry, the
/// predefined types at `TYP_INT..=TYP_STRING` (each naming itself as its
/// type, of size one), the reserved words (on no chain), then the
/// predefined procedures; the types and procedures are chained in the
/// global block, whose last entry is the newest.
pub open spec fn initial_tables(st: SymbolTable) -> bool {
    &&& st.tab@.len() == 39
    &&& entry_is(st.tab@[0], Seq::empty(), 0, ObjectKind::Type, TYP_NOTYPE, 0, true, 0, 0)
    &&& forall|i: int| 1 <= i < 6 ==> {
        let (n, o, t, a) = system_entries()[i - 1];
        entry_is(#[trigger] st.tab@[i], n, (i - 1) as usize, o, t, 0, true, 0, a)
    }
    &&& forall|i: int| 6 <= i < 35 ==> entry_is(#[trigger] st.tab@[i], reserved_words()[i - 6], 0,
        ObjectKind::Constant, TYP_NOTYPE, 0, true, 0, 0)
    &&& forall|i: int| 35 <= i < 39 ==> {
        let (n, o, t, a) = system_entries()[i - 30];
        entry_is(#[trigger] st.tab@[i], n, (if i == 35 { 5 } else { (i - 1) as usize }), o, t, 0, true, 0, a)
    }
    &&& st.btab@.len() == 1
    &&& st.btab@[0] == BTabEntry { last: 38, lpar: 0, psze: 0, vsze: 0 }
    &&& st.atab@.len() == 0
    &&& st.display@ == Seq::new(20, |i: int| 0usize)
    &&& st.level == 0
}

/// The chain walk over `tab` does not change when `tab` grows.
pub proof fn lemma_chain_find_prefix(tab1: Seq<TabEntryV>, tab2: Seq<TabEntryV>, start: int, name: Seq<char>)
    requires
        tab1.len() <= tab2.len(),
        forall|i: int| 0 <= i < tab1.len() ==> tab2[i] == tab1[i],
        0 <= start < tab1.len(),
    ensures
        chain_find(tab2, start, name) == chain_find(tab1, start, name),
    decreases start,
{
    if start > 0 && tab1[start].name != name && (tab1[start].link as int) < start {
        lemma_chain_find_prefix(tab1, tab2, tab1[start].link as int, name);
    }
}

/// What a chain walk finds is on the table and has the name looked for.
pub proof fn lemma_chain_find_found(tab: Seq<TabEntryV>, start: int, name: Seq<char>)
    ensures
        chain_find(tab, start, name) matches Some(i) ==> 0 < i < tab.len() && i <= start && tab[i].name == name,
    decreases start,
{
    if start > 0 && start < tab.len() && tab[start].name != name && (tab[start].link as int) < start {
        lemma_chain_find_found(tab, tab[start].link as int, name);
    }
}

impl SymbolTableV {
    /// The tables after `enter`: a new newest identifier in the block of
    /// the current level.
    pub open spec fn entered(self, name: Seq<char>, obj: ObjectKind, typ: usize, adr: usize, normal: bool) -> SymbolTableV {
        let b = self.block_of(self.level as int);
        SymbolTableV {
            tab: self.tab.push(TabEntryV { name, link: self.btab[b].last, obj, typ, ref_idx: 0, normal, level: self.level, adr }),
            btab: self.btab.update(b, BTabEntry { last: self.tab.len() as usize, ..self.btab[b] }),
            ..self
        }
    }

    /// The tables after `set_ref`: entry `i` refers to `r`.
    pub open spec fn with_ref(self, i: int, r: usize) -> SymbolTableV {
        SymbolTableV { tab: self.tab.update(i, TabEntryV { ref_idx: r, ..self.tab[i] }), ..self }
    }

    /// The tables after `make_block`.
    pub open spec fn with_block(self) -> SymbolTableV {
        SymbolTableV { btab: self.btab.push(BTabEntry { last: 0, lpar: 0, psze: 0, vsze: 0 }), ..self }
    }

    /// The tables after `make_array`.
    pub open spec fn with_array(self, xtyp: usize, etyp: usize, eref: usize, low: i32, high: i32, elsz: usize) -> SymbolTableV {
        SymbolTableV {
            atab: self.atab.push(ATabEntry {
                xtyp,
                etyp,
                eref,
                low,
                high,
                elsz,
                size: (high.wrapping_sub(low).wrapping_add(1) as usize).wrapping_mul(elsz),
            }),
            ..self
        }
    }

    /// The tables after `enter_scope`: a new block for the next level.
    pub open spec fn scope_entered(self) -> SymbolTableV {
        let lev = (self.level + 1) as usize;
        let d = if lev >= self.display.len() { self.display.push(0) } else { self.display };
        SymbolTableV {
            btab: self.btab.push(BTabEntry { last: 0, lpar: 0, psze: 0, vsze: 0 }),
            display: d.update(lev as int, self.btab.len() as usize),
            level: lev,
            ..self
        }
    }

    /// The tables after `exit_scope`.
    pub open spec fn scope_exited(self) -> SymbolTableV {
        SymbolTableV { level: if self.level > 0 { (self.level - 1) as usize } else { 0 }, ..self }
    }

    /// Lookups from `lev` down agree between two tables that share the
    /// older part of `tab` and the blocks of levels `0..=lev`.
    pub proof fn lemma_find_frame(st1: SymbolTableV, st2: SymbolTableV, lev: int, name: Seq<char>)
        requires
            st1.wf(),
            st2.wf(),
            lev < st1.display.len(),
            lev < st2.display.len(),
            st1.tab.len() <= st2.tab.len(),
            forall|i: int| 0 <= i < st1.tab.len() ==> st2.tab[i] == st1.tab[i],
            forall|l: int| 0 <= l <= lev ==> st2.btab[st2.block_of(l)].last == st1.btab[st1.block_of(l)].last,
        ensures
            st2.find_from_level(lev, name) == st1.find_from_level(lev, name),
        decreases lev + 1,
    {
        if lev >= 0 {
            lemma_chain_find_prefix(st1.tab, st2.tab, st1.btab[st1.block_of(lev)].last as int, name);
            Self::lemma_find_frame(st1, st2, lev - 1, name);
        }
    }
}

/// Entering a scope and leaving it again gives back every lookup as it
/// was before: whatever the inner block held is out of sight.
pub proof fn law_scope_round_trip(st: SymbolTableV, name: Seq<char>)
    requires
        st.wf(),
        st.level < usize::MAX,
    ensures
        st.scope_entered().scope_exited().spec_find(name) == st.spec_find(name),
{
    let s2 = st.scope_entered().scope_exited();
    assert(s2.level == st.level);
    assert forall|l: int| 0 <= l < s2.display.len() implies (#[trigger] s2.display[l]) < s2.btab.len() by {
        if l != st.level + 1 {
            assert(s2.display[l] == st.display[l]);
        }
    }
    assert forall|b: int| 0 <= b < s2.btab.len() implies (#[trigger] s2.btab[b]).last < s2.tab.len()
        && s2.btab[b].lpar < s2.tab.len() by {
        if b < st.btab.len() {
            assert(s2.btab[b] == st.btab[b]);
        }
    }
    assert(s2.wf());
    assert forall|l: int| 0 <= l <= st.level implies s2.btab[s2.block_of(l)].last == st.btab[st.block_of(l)].last by {
        assert(s2.display[l] == st.display[l]);
        assert(s2.btab[st.display[l] as int] == st.btab[st.display[l] as int]);
    }
    SymbolTableV::lemma_find_frame(st, s2, st.level as int, name);
}

/// The tables `s` are those of `st0` with one more scope open, holding
/// whatever was declared in it: the identifiers of `st0` are kept, and
/// the blocks of the levels of `st0` are untouched.
pub open spec fn scope_frame(st0: SymbolTableV, s: SymbolTableV) -> bool {
    &&& st0.wf()
    &&& s.wf()
    &&& s.level == st0.level + 1
    &&& st0.tab.len() <= s.tab.len()
    &&& forall|i: int| 0 <= i < st0.tab.len() ==> s.tab[i] == st0.tab[i]
    &&& st0.btab.len() <= s.btab.len()
    &&& st0.btab.len() <= s.display[s.level as int]
    &&& forall|l: int| 0 <= l <= st0.level ==> #[trigger] s.display[l] == st0.display[l]
    &&& forall|b: int| 0 <= b < st0.btab.len() ==> #[trigger] s.btab[b] == st0.btab[b]
}

/// Entering a scope opens such a frame.
pub proof fn law_scope_opened(st0: SymbolTableV)
    requires
        st0.wf(),
        st0.level < usize::MAX,
        st0.btab.len() <= usize::MAX,
    ensures
        scope_frame(st0, st0.scope_entered()),
{
    let s = st0.scope_entered();
    assert forall|l: int| 0 <= l < s.display.len() implies (#[trigger] s.display[l]) < s.btab.len() by {
        if l != st0.level + 1 {
            assert(s.display[l] == st0.display[l]);
        }
    }
    assert forall|b: int| 0 <= b < s.btab.len() implies (#[trigger] s.btab[b]).last < s.tab.len()
        && s.btab[b].lpar < s.tab.len() by {
        if b < st0.btab.len() {
            assert(s.btab[b] == st0.btab[b]);
        }
    }
    let lev = (st0.level + 1) as usize;
    assert(lev == st0.level + 1);
    let d = if lev >= st0.display.len() { st0.display.push(0) } else { st0.display };
    assert(lev < d.len());
    assert(s.display == d.update(lev as int, st0.btab.len() as usize));
    assert(s.wf());
    assert(s.display[s.level as int] == st0.btab.len());
    assert forall|l: int| 0 <= l <= st0.level implies #[trigger] s.display[l] == st0.display[l] by {}
    assert forall|b: int| 0 <= b < st0.btab.len() implies #[trigger] s.btab[b] == st0.btab[b] by {}
}

/// Declaring an identifier inside the frame keeps it a frame.
pub proof fn law_scope_frame_entered(
    st0: SymbolTableV,
    s: SymbolTableV,
    name: Seq<char>,
    obj: ObjectKind,
    typ: usize,
    adr: usize,
    normal: bool,
)
    requires
        scope_frame(st0, s),
        s.tab.len() < usize::MAX,
    ensures
        scope_frame(st0, s.entered(name, obj, typ, adr, normal)),
{
    let s2 = s.entered(name, obj, typ, adr, normal);
    let b = s.block_of(s.level as int);
    assert forall|i: int| 0 <= i < s2.tab.len() implies (#[trigger] s2.tab[i]).link < (if i == 0 { 1 } else { i }) by {
        if i < s.tab.len() {
            assert(s2.tab[i] == s.tab[i]);
        }
    }
    assert forall|c: int| 0 <= c < s2.btab.len() implies (#[trigger] s2.btab[c]).last < s2.tab.len()
        && s2.btab[c].lpar < s2.tab.len() by {
        if c != b {
            assert(s2.btab[c] == s.btab[c]);
        }
    }
    assert forall|l: int| 0 <= l < s2.display.len() implies (#[trigger] s2.display[l]) < s2.btab.len() by {
        assert(s2.display[l] == s.display[l]);
    }
    assert forall|c: int| 0 <= c < st0.btab.len() implies #[trigger] s2.btab[c] == st0.btab[c] by {
        assert(c != b);
        assert(s2.btab[c] == s.btab[c]);
    }
}

/// Making a block inside the frame keeps it a frame.
pub proof fn law_scope_frame_block(st0: SymbolTableV, s: SymbolTableV)
    requires
        scope_frame(st0, s),
    ensures
        scope_frame(st0, s.with_block()),
{
    let s2 = s.with_block();
    assert forall|c: int| 0 <= c < s2.btab.len() implies (#[trigger] s2.btab[c]).last < s2.tab.len()
        && s2.btab[c].lpar < s2.tab.len() by {
        if c < s.btab.len() {
            assert(s2.btab[c] == s.btab[c]);
        }
    }
    assert forall|l: int| 0 <= l < s2.display.len() implies (#[trigger] s2.display[l]) < s2.btab.len() by {
        assert(s2.display[l] == s.display[l]);
    }
    assert forall|c: int| 0 <= c < st0.btab.len() implies #[trigger] s2.btab[c] == st0.btab[c] by {
        assert(s2.btab[c] == s.btab[c]);
    }
}

/// Making an array type inside the frame keeps it a frame.
pub proof fn law_scope_frame_array(
    st0: SymbolTableV,
    s: SymbolTableV,
    xtyp: usize,
    etyp: usize,
    eref: usize,
    low: i32,
    high: i32,
    elsz: usize,
)
    requires
        scope_frame(st0, s),
    ensures
        scope_frame(st0, s.with_array(xtyp, etyp, eref, low, high, elsz)),
{
}

/// Leaving the scope of a frame gives back the level and every lookup of
/// the tables the frame was opened from: what was declared inside is out
/// of sight, and what was visible before is visible again.
pub proof fn law_scope_closed(st0: SymbolTableV, s: SymbolTableV, name: Seq<char>)
    requires
        scope_frame(st0, s),
    ensures
        s.scope_exited().level == st0.level,
        s.scope_exited().spec_find(name) == st0.spec_find(name),
{
    let s2 = s.scope_exited();
    assert(s2.wf());
    assert forall|l: int| 0 <= l <= st0.level implies s2.btab[s2.block_of(l)].last == st0.btab[st0.block_of(l)].last by {
        assert(s2.display[l] == st0.display[l]);
        assert(st0.display[l] < st0.btab.len());
        assert(s2.btab[st0.display[l] as int] == st0.btab[st0.display[l] as int]);
    }
    SymbolTableV::lemma_find_frame(st0, s2, st0.level as int, name);
}

/// Declaring `name` makes it found as the new entry, and leaves what every
/// other name is found as unchanged.
pub proof fn law_enter_finds_the_new_name(
    st: SymbolTableV,
    name: Seq<char>,
    obj: ObjectKind,
    typ: usize,
    adr: usize,
    normal: bool,
    other: Seq<char>,
)
    requires
        st.wf(),
        st.tab.len() < usize::MAX,
    ensures
        st.entered(name, obj, typ, adr, normal).spec_find(name) == Some(st.tab.len() as int),
        other != name ==> st.entered(name, obj, typ, adr, normal).spec_find(other) == st.spec_find(other),
{
    let s2 = st.entered(name, obj, typ, adr, normal);
    let b = st.block_of(st.level as int);
    let n = st.tab.len() as int;
    assert(s2.tab[n].name == name);
    assert(s2.btab[b].last == n);
    assert(chain_find(s2.tab, n, name) == Some(n));
    if other != name {
        assert forall|l: int| 0 <= l <= st.level implies chain_find(s2.tab, s2.btab[s2.block_of(l)].last as int, other)
            == chain_find(st.tab, st.btab[st.block_of(l)].last as int, other) by {
            let bl = st.block_of(l);
            assert(s2.block_of(l) == bl);
            let start = st.btab[bl].last as int;
            lemma_chain_find_prefix(st.tab, s2.tab, start, other);
            if bl == b {
                assert(s2.tab[n].link == st.btab[b].last);
                assert(chain_find(s2.tab, n, other) == chain_find(s2.tab, start, other));
            } else {
                assert(s2.btab[bl] == st.btab[bl]);
            }
        }
        lemma_find_levels_agree(st, s2, st.level as int, other);
    }
}

/// Lookups from `lev` down agree between two tables whose chains agree on
/// every level up to `lev`.
pub proof fn lemma_find_levels_agree(st1: SymbolTableV, st2: SymbolTableV, lev: int, name: Seq<char>)
    requires
        forall|l: int| 0 <= l <= lev ==> chain_find(st2.tab, st2.btab[st2.block_of(l)].last as int, name)
            == chain_find(st1.tab, st1.btab[st1.block_of(l)].last as int, name),
    ensures
        st2.find_from_level(lev, name) == st1.find_from_level(lev, name),
    decreases lev + 1,
{
    if lev >= 0 {
        lemma_find_levels_agree(st1, st2, lev - 1, name);
    }
}

/// One change that the body of a scope makes to the tables: an identifier
/// declared, a block made, or an array type made.
pub ghost enum TableChange {
    Enter { name: Seq<char>, obj: ObjectKind, typ: usize, adr: usize, normal: bool },
    Block,
    Array { xtyp: usize, etyp: usize, eref: usize, low: i32, high: i32, elsz: usize },
}

/// The tables after the changes `ops`, one after the other.
pub open spec fn changed(s: SymbolTableV, ops: Seq<TableChange>) -> SymbolTableV
    decreases ops.len(),
{
    if ops.len() == 0 {
        s
    } else {
        let p = changed(s, ops.drop_last());
        match ops.last() {
            TableChange::Enter { name, obj, typ, adr, normal } => p.entered(name, obj, typ, adr, normal),
            TableChange::Block => p.with_block(),
            TableChange::Array { xtyp, etyp, eref, low, high, elsz } => p.with_array(xtyp, etyp, eref, low, high, elsz),
        }
    }
}

/// Whatever changes follow the opening of a scope, the tables stay a frame
/// of those it was opened from, with at most one identifier more per
/// change.
pub proof fn lemma_changes_keep_frame(st0: SymbolTableV, ops: Seq<TableChange>)
    requires
        st0.wf(),
        st0.level < usize::MAX,
        st0.btab.len() <= usize::MAX,
        st0.tab.len() + ops.len() < usize::MAX,
    ensures
        scope_frame(st0, changed(st0.scope_entered(), ops)),
        changed(st0.scope_entered(), ops).tab.len() <= st0.tab.len() + ops.len(),
    decreases ops.len(),
{
    if ops.len() == 0 {
        law_scope_opened(st0);
    } else {
        lemma_changes_keep_frame(st0, ops.drop_last());
        let p = changed(st0.scope_entered(), ops.drop_last());
        match ops.last() {
            TableChange::Enter { name, obj, typ, adr, normal } => {
                law_scope_frame_entered(st0, p, name, obj, typ, adr, normal);
            },
            TableChange::Block => {
                law_scope_frame_block(st0, p);
            },
            TableChange::Array { xtyp, etyp, eref, low, high, elsz } => {
                law_scope_frame_array(st0, p, xtyp, etyp, eref, low, high, elsz);
            },
        }
    }
}

/// Entering a scope, making any changes in it, and leaving it gives back
/// the level and every lookup as they were before the scope was entered:
/// names declared inside are out of sight, and names visible before are
/// found as before.
pub proof fn law_scope_round_trip_over_changes(st: SymbolTableV, ops: Seq<TableChange>, name: Seq<char>)
    requires
        st.wf(),
        st.level < usize::MAX,
        st.btab.len() <= usize::MAX,
        st.tab.len() + ops.len() < usize::MAX,
    ensures
        changed(st.scope_entered(), ops).scope_exited().level == st.level,
        changed(st.scope_entered(), ops).scope_exited().spec_find(name) == st.spec_find(name),
{
    lemma_changes_keep_frame(st, ops);
    law_scope_closed(st, changed(st.scope_entered(), ops), name);
}

/// The view of a pushed table is the pushed view.
pub proof fn lemma_tab_push(tab: Seq<TabEntry>, e: TabEntry)
    ensures
        tab.push(e).map_values(|x: TabEntry| x@) == tab.map_values(|x: TabEntry| x@).push(e@),
{
    assert(tab.push(e).map_values(|x: TabEntry| x@) =~= tab.map_values(|x: TabEntry| x@).push(e@));
}

impl SymbolTable {
    /// Adds an identifier to the block of the current level and makes it
    /// the newest there; `find` then gives it for its name.
    pub fn enter(&mut self, name: String, obj: ObjectKind, typ: usize, adr: usize, normal: bool) -> (r: usize)
        requires
            old(self).wf(),
        ensures
            final(self).wf(),
            r == old(self).tab@.len(),
            final(self)@ == old(self)@.entered(name@, obj, typ, adr, normal),
            final(self)@.spec_find(name@) == Some(r as int),
            final(self)@.spec_find_in_current_scope(name@) == Some(r as int),
    {
        let current_btab_idx = self.display[self.level];
        let last_link = self.btab[current_btab_idx].last;
        let ghost nm = name@;
        let entry = TabEntry { name, link: last_link, obj, typ, ref_idx: 0, normal, level: self.level, adr };
        proof { lemma_tab_push(self.tab@, entry); }
        self.tab.push(entry);
        let new_idx = self.tab.len() - 1;
        let mut b = self.btab[current_btab_idx];
        b.last = new_idx;
        self.btab.set(current_btab_idx, b);
        proof {
            assert(self@ == old(self)@.entered(nm, obj, typ, adr, normal));
            assert(self.btab@[current_btab_idx as int].last == new_idx);
            assert(chain_find(self@.tab, new_idx as int, nm) == Some(new_idx as int));
            assert(chain_find_ci(self@.tab, new_idx as int, nm) == Some(new_idx as int));
        }
        new_idx
    }

    /// Makes entry `i` refer to `r`: the array row of a type, or the block
    /// of a procedure or function.
    pub fn set_ref(&mut self, i: usize, r: usize)
        requires
            old(self).wf(),
            i < old(self).tab@.len(),
        ensures
            final(self).wf(),
            final(self)@ == old(self)@.with_ref(i as int, r),
    {
        let e = TabEntry {
            name: self.tab[i].name.clone(),
            link: self.tab[i].link,
            obj: self.tab[i].obj,
            typ: self.tab[i].typ,
            ref_idx: r,
            normal: self.tab[i].normal,
            level: self.tab[i].level,
            adr: self.tab[i].adr,
        };
        let ghost t0 = self.tab@;
        self.tab.set(i, e);
        proof {
            assert(self.tab@.map_values(|e: TabEntry| e@) =~= t0.map_values(|e: TabEntry| e@).update(i as int,
                TabEntryV { ref_idx: r, ..t0.map_values(|e: TabEntry| e@)[i as int] }));
            assert(self@ =~= old(self)@.with_ref(i as int, r));
            assert forall|j: int| 0 <= j < self@.tab.len() implies (#[trigger] self@.tab[j]).link < (if j == 0 { 1 } else { j }) by {
                assert(old(self)@.tab[j].link == self@.tab[j].link);
            }
        }
    }

    /// An empty block.
    pub fn make_block(&mut self) -> (r: usize)
        requires
            old(self).wf(),
        ensures
            final(self).wf(),
            r == old(self).btab@.len(),
            final(self)@ == old(self)@.with_block(),
    {
        self.btab.push(BTabEntry { last: 0, lpar: 0, psze: 0, vsze: 0 });
        proof { assert(self@ == old(self)@.with_block()); }
        self.btab.len() - 1
    }

    /// Adds an array type and gives its position in `atab`; its size is the
    /// element size times the number of indices, computed as the release
    /// build does, with wrapping arithmetic.
    pub fn make_array(&mut self, xtyp: usize, etyp: usize, eref: usize, low: i32, high: i32, elsz: usize) -> (r: usize)
        requires
            old(self).wf(),
        ensures
            final(self).wf(),
            r == old(self).atab@.len(),
            final(self)@ == old(self)@.with_array(xtyp, etyp, eref, low, high, elsz),
    {
        let count = high.wrapping_sub(low).wrapping_add(1) as usize;
        let size = count.wrapping_mul(elsz);
        self.atab.push(ATabEntry { xtyp, etyp, eref, low, high, elsz, size });
        proof { assert(self@ == old(self)@.with_array(xtyp, etyp, eref, low, high, elsz)); }
        self.atab.len() - 1
    }

    /// Looks `name` up from the current level down to the global one; on
    /// each level the newest identifier of that name wins.
    pub fn find(&self, name: &str) -> (r: Option<usize>)
        requires
            self.wf(),
        ensures
            match r {
                Some(i) => self@.spec_find(name@) == Some(i as int),
                None => self@.spec_find(name@) is None,
            },
            r matches Some(i) ==> i < self@.tab.len() && self@.tab[i as int].name == name@,
    {
        proof { assert(self.display.len() == self.display@.len()); }
        let mut lev = self.level + 1;
        while lev > 0
            invariant
                self.wf(),
                lev <= self.level + 1,
                self@.spec_find(name@) == self@.find_from_level(lev - 1, name@),
            decreases lev,
        {
            lev -= 1;
            let btab_idx = self.display[lev];
            let mut curr = self.btab[btab_idx].last;
            let ghost start = curr as int;
            while curr != 0
                invariant
                    self.wf(),
                    curr < self@.tab.len(),
                    chain_find(self@.tab, start, name@) == chain_find(self@.tab, curr as int, name@),
                    lev <= self.level,
                    start == self@.btab[self@.block_of(lev as int)].last as int,
                    self@.spec_find(name@) == self@.find_from_level(lev as int, name@),
                decreases curr,
            {
                let entry = &self.tab[curr];
                proof { assert(self@.tab[curr as int] == entry@); }
                if str_eq(entry.name.as_str(), name) {
                    proof { lemma_chain_find_found(self@.tab, start, name@); }
                    return Some(curr);
                }
                curr = entry.link;
            }
        }
        None
    }

    /// Looks `name` up on the current level only, ignoring case.
    pub fn find_in_current_scope(&self, name: &str) -> (r: Option<usize>)
        requires
            self.wf(),
        ensures
            match r {
                Some(i) => self@.spec_find_in_current_scope(name@) == Some(i as int),
                None => self@.spec_find_in_current_scope(name@) is None,
            },
    {
        let current_btab = self.display[self.level];
        let mut idx = self.btab[current_btab].last;
        let lower_name = to_lowercase(name);
        while idx != 0
            invariant
                self.wf(),
                idx < self@.tab.len(),
                lower_name@ == lowercase_of(name@),
                self@.spec_find_in_current_scope(name@) == chain_find_ci(self@.tab, idx as int, name@),
            decreases idx,
        {
            proof { assert(self@.tab[idx as int] == self.tab@[idx as int]@); }
            let lower_entry = to_lowercase(self.tab[idx].name.as_str());
            if str_eq(lower_entry.as_str(), lower_name.as_str()) {
                return Some(idx);
            }
            idx = self.tab[idx].link;
        }
        None
    }

    /// Opens a new level with a new, empty block; lookups do not change.
    pub fn enter_scope(&mut self)
        requires
            old(self).wf(),
        ensures
            final(self).wf(),
            final(self)@ == old(self)@.scope_entered(),
            forall|name: Seq<char>| #[trigger] final(self)@.spec_find(name) == old(self)@.spec_find(name),
            forall|name: Seq<char>| #[trigger] final(self)@.spec_find_in_current_scope(name) is None,
    {
        let btab_idx = self.make_block();
        proof { assert(self.display.len() == self.display@.len()); }
        self.level += 1;
        if self.level >= self.display.len() {
            self.display.push(0);
        }
        self.display.set(self.level, btab_idx);
        proof {
            assert(self@ =~= old(self)@.scope_entered());
            assert forall|name: Seq<char>| #[trigger] self@.spec_find(name) == old(self)@.spec_find(name) by {
                assert(self@.btab[self@.block_of(self.level as int)].last == 0);
                assert(chain_find(self@.tab, 0, name) is None);
                SymbolTableV::lemma_find_frame(old(self)@, self@, old(self).level as int, name);
            }
        }
    }

    /// Leaves the current level, unless it is the global one.
    pub fn exit_scope(&mut self)
        requires
            old(self).wf(),
        ensures
            final(self).wf(),
            final(self)@ == old(self)@.scope_exited(),
    {
        if self.level > 0 {
            self.level -= 1;
        }
    }

    /// Adds a predefined identifier to the global block.
    fn add_system_entry(&mut self, name: &str, obj: ObjectKind, typ: usize, size: usize)
        requires
            old(self).wf(),
            old(self).tab@.len() < usize::MAX,
        ensures
            final(self).wf(),
            final(self).tab@.len() == old(self).tab@.len() + 1,
            forall|i: int| 0 <= i < old(self).tab@.len() ==> final(self).tab@[i] == old(self).tab@[i],
            entry_is(final(self).tab@.last(), name@, old(self).btab@[0].last, obj, typ, 0, true, 0, size),
            final(self).btab@ == old(self).btab@.update(0, BTabEntry { last: old(self).tab@.len() as usize, ..old(self).btab@[0] }),
            final(self).atab == old(self).atab,
            final(self).display == old(self).display,
            final(self).level == old(self).level,
    {
        let last_link = self.btab[0].last;
        let entry = TabEntry {
            name: string_of(name),
            link: last_link,
            obj,
            typ,
            ref_idx: 0,
            normal: true,
            level: 0,
            adr: size,
        };
        proof { lemma_tab_push(self.tab@, entry); }
        self.tab.push(entry);
        let new_idx = self.tab.len() - 1;
        let mut b = self.btab[0];
        b.last = new_idx;
        self.btab.set(0, b);
    }

    /// Adds the predefined types, each of size one.
    fn init_primitives(&mut self)
        requires
            old(self).wf(),
            old(self).tab@.len() < 1000,
        ensures
            final(self).wf(),
            final(self).tab@.len() == old(self).tab@.len() + 5,
            forall|i: int| 0 <= i < old(self).tab@.len() ==> final(self).tab@[i] == old(self).tab@[i],
            forall|i: int| 0 <= i < 5 ==> {
                let (n, o, t, a) = system_entries()[i];
                entry_is(#[trigger] final(self).tab@[old(self).tab@.len() + i], n,
                    (if i == 0 { old(self).btab@[0].last } else { (old(self).tab@.len() + i - 1) as usize }), o, t, 0, true, 0, a)
            },
            final(self).btab@ == old(self).btab@.update(0, BTabEntry { last: (old(self).tab@.len() + 4) as usize, ..old(self).btab@[0] }),
            final(self).atab == old(self).atab,
            final(self).display == old(self).display,
            final(self).level == old(self).level,
    {
        self.add_system_entry("integer", ObjectKind::Type, TYP_INT, 1);
        self.add_system_entry("real", ObjectKind::Type, TYP_REAL, 1);
        self.add_system_entry("boolean", ObjectKind::Type, TYP_BOOL, 1);
        self.add_system_entry("char", ObjectKind::Type, TYP_CHAR, 1);
        self.add_system_entry("string", ObjectKind::Type, TYP_STRING, 1);
    }

    /// Adds the predefined procedures `write`, `writeln`, `read`, `readln`.
    fn init_standard_procedures(&mut self)
        requires
            old(self).wf(),
            old(self).tab@.len() < 1000,
        ensures
            final(self).wf(),
            final(self).tab@.len() == old(self).tab@.len() + 4,
            forall|i: int| 0 <= i < old(self).tab@.len() ==> final(self).tab@[i] == old(self).tab@[i],
            forall|i: int| 0 <= i < 4 ==> {
                let (n, o, t, a) = system_entries()[i + 5];
                entry_is(#[trigger] final(self).tab@[old(self).tab@.len() + i], n,
                    (if i == 0 { old(self).btab@[0].last } else { (old(self).tab@.len() + i - 1) as usize }), o, t, 0, true, 0, a)
            },
            final(self).btab@ == old(self).btab@.update(0, BTabEntry { last: (old(self).tab@.len() + 3) as usize, ..old(self).btab@[0] }),
            final(self).atab == old(self).atab,
            final(self).display == old(self).display,
            final(self).level == old(self).level,
    {
        self.add_system_entry("write", ObjectKind::Procedure, TYP_NOTYPE, 0);
        self.add_system_entry("writeln", ObjectKind::Procedure, TYP_NOTYPE, 0);
        self.add_system_entry("read", ObjectKind::Procedure, TYP_NOTYPE, 0);
        self.add_system_entry("readln", ObjectKind::Procedure, TYP_NOTYPE, 0);
    }

    /// The tables with the global block, the reserved words and the
    /// predefined types and procedures, at level zero.
    pub fn new() -> (st: SymbolTable)
        ensures
            st.wf(),
            initial_tables(st),
    {
        let mut st = SymbolTable {
            tab: Vec::new(),
            btab: Vec::new(),
            atab: Vec::new(),
            display: Vec::new(),
            level: 0,
        };
        let mut d: usize = 0;
        while d < 20
            invariant
                d <= 20,
                st.display@ == Seq::new(d as nat, |i: int| 0usize),
                st.tab@.len() == 0,
                st.btab@.len() == 0,
                st.atab@.len() == 0,
                st.level == 0,
            decreases 20 - d,
        {
            st.display.push(0);
            d += 1;
            proof { assert(st.display@ =~= Seq::new(d as nat, |i: int| 0usize)); }
        }
        st.btab.push(BTabEntry { last: 0, lpar: 0, psze: 0, vsze: 0 });
        st.display.set(0, 0);
        st.tab.push(TabEntry {
            name: String::new(),
            link: 0,
            obj: ObjectKind::Type,
            typ: TYP_NOTYPE,
            ref_idx: 0,
            normal: true,
            level: 0,
            adr: 0,
        });
        st.init_primitives();
        let ghost t6 = st.tab@;
        st.tab.push(TabEntry { name: string_of("AND"), link: 0, obj: ObjectKind::Constant, typ: TYP_NOTYPE, ref_idx: 0, normal: true, level: 0, adr: 0 });
        st.tab.push(TabEntry { name: string_of("ARRAY"), link: 0, obj: ObjectKind::Constant, typ: TYP_NOTYPE, ref_idx: 0, normal: true, level: 0, adr: 0 });
        st.tab.push(TabEntry { name: string_of("BEGIN"), link: 0, obj: ObjectKind::Constant, typ: TYP_NOTYPE, ref_idx: 0, normal: true, level: 0, adr: 0 });
        st.tab.push(TabEntry { name: string_of("CASE"), link: 0, obj: ObjectKind::Constant, typ: TYP_NOTYPE, ref_idx: 0, normal: true, level: 0, adr: 0 });
        st.tab.push(TabEntry { name: string_of("CONST"), link: 0, obj: ObjectKind::Constant, typ: TYP_NOTYPE, ref_idx: 0, normal: true, level: 0, adr: 0 });
        st.tab.push(TabEntry { name: string_of("DIV"), link: 0, obj: ObjectKind::Constant, typ: TYP_NOTYPE, ref_idx: 0, normal: true, level: 0, adr: 0 });
        st.tab.push(TabEntry { name: string_of("DOWNTO"), link: 0, obj: ObjectKind::Constant, typ: TYP_NOTYPE, ref_idx: 0, normal: true, level: 0, adr: 0 });
        st.tab.push(TabEntry { name: string_of("DO"), link: 0, obj: ObjectKind::Constant, typ: TYP_NOTYPE, ref_idx: 0, normal: true, level: 0, adr: 0 });
        st.tab.push(TabEntry { name: string_of("ELSE"), link: 0, obj: ObjectKind::Constant, typ: TYP_NOTYPE, ref_idx: 0, normal: true, level: 0, adr: 0 });
        st.tab.push(TabEntry { name: string_of("END"), link: 0, obj: ObjectKind::Constant, typ: TYP_NOTYPE, ref_idx: 0, normal: true, level: 0, adr: 0 });
        st.tab.push(TabEntry { name: string_of("FOR"), link: 0, obj: ObjectKind::Constant, typ: TYP_NOTYPE, ref_idx: 0, normal: true, level: 0, adr: 0 });
        st.tab.push(TabEntry { name: string_of("FUNCTION"), link: 0, obj: ObjectKind::Constant, typ: TYP_NOTYPE, ref_idx: 0, normal: true, level: 0, adr: 0 });
        st.tab.push(TabEntry { name: string_of("IF"), link: 0, obj: ObjectKind::Constant, typ: TYP_NOTYPE, ref_idx: 0, normal: true, level: 0, adr: 0 });
        st.tab.push(TabEntry { name: string_of("MOD"), link: 0, obj: ObjectKind::Constant, typ: TYP_NOTYPE, ref_idx: 0, normal: true, level: 0, adr: 0 });
        st.tab.push(TabEntry { name: string_of("NOT"), link: 0, obj: ObjectKind::Constant, typ: TYP_NOTYPE, ref_idx: 0, normal: true, level: 0, adr: 0 });
        st.tab.push(TabEntry { name: string_of("OF"), link: 0, obj: ObjectKind::Constant, typ: TYP_NOTYPE, ref_idx: 0, normal: true, level: 0, adr: 0 });
        st.tab.push(TabEntry { name: string_of("OR"), link: 0, obj: ObjectKind::Constant, typ: TYP_NOTYPE, ref_idx: 0, normal: true, level: 0, adr: 0 });
        st.tab.push(TabEntry { name: string_of("PROCEDURE"), link: 0, obj: ObjectKind::Constant, typ: TYP_NOTYPE, ref_idx: 0, normal: true, level: 0, adr: 0 });
        st.tab.push(TabEntry { name: string_of("PROGRAM"), link: 0, obj: ObjectKind::Constant, typ: TYP_NOTYPE, ref_idx: 0, normal: true, level: 0, adr: 0 });
        st.tab.push(TabEntry { name: string_of("RECORD"), link: 0, obj: ObjectKind::Constant, typ: TYP_NOTYPE, ref_idx: 0, normal: true, level: 0, adr: 0 });
        st.tab.push(TabEntry { name: string_of("REPEAT"), link: 0, obj: ObjectKind::Constant, typ: TYP_NOTYPE, ref_idx: 0, normal: true, level: 0, adr: 0 });
        st.tab.push(TabEntry { name: string_of("STRING"), link: 0, obj: ObjectKind::Constant, typ: TYP_NOTYPE, ref_idx: 0, normal: true, level: 0, adr: 0 });
        st.tab.push(TabEntry { name: string_of("THEN"), link: 0, obj: ObjectKind::Constant, typ: TYP_NOTYPE, ref_idx: 0, normal: true, level: 0, adr: 0 });
        st.tab.push(TabEntry { name: string_of("TO"), link: 0, obj: ObjectKind::Constant, typ: TYP_NOTYPE, ref_idx: 0, normal: true, level: 0, adr: 0 });
        st.tab.push(TabEntry { name: string_of("TYPE"), link: 0, obj: ObjectKind::Constant, typ: TYP_NOTYPE, ref_idx: 0, normal: true, level: 0, adr: 0 });
        st.tab.push(TabEntry { name: string_of("UNTIL"), link: 0, obj: ObjectKind::Constant, typ: TYP_NOTYPE, ref_idx: 0, normal: true, level: 0, adr: 0 });
        st.tab.push(TabEntry { name: string_of("VAR"), link: 0, obj: ObjectKind::Constant, typ: TYP_NOTYPE, ref_idx: 0, normal: true, level: 0, adr: 0 });
        st.tab.push(TabEntry { name: string_of("WHILE"), link: 0, obj: ObjectKind::Constant, typ: TYP_NOTYPE, ref_idx: 0, normal: true, level: 0, adr: 0 });
        st.tab.push(TabEntry { name: string_of("PACKED"), link: 0, obj: ObjectKind::Constant, typ: TYP_NOTYPE, ref_idx: 0, normal: true, level: 0, adr: 0 });
        let ghost t35 = st.tab@;
        proof {
            assert(st.display@ =~= Seq::new(20, |i: int| 0usize));
            assert(st.tab@.len() == 35);
            assert forall|i: int| 6 <= i < 35 implies entry_is(#[trigger] st.tab@[i], reserved_words()[i - 6], 0,
                ObjectKind::Constant, TYP_NOTYPE, 0, true, 0, 0) by {}
            assert forall|i: int| 0 <= i < st@.tab.len() implies (#[trigger] st@.tab[i]).link < (if i == 0 { 1 } else { i }) by {
                assert(st@.tab[i] == st.tab@[i]@);
                if 1 <= i < 6 {
                    let j = i - 1;
                    assert(st.tab@[i] == t6[i]);
                    assert(t6[1 + j] == t6[i]);
                } else if i == 0 {
                    assert(st.tab@[0] == t6[0]);
                }
            }
            assert(st@.wf());
        }
        st.init_standard_procedures();
        proof {
            assert(st.display@ =~= Seq::new(20, |i: int| 0usize));
            assert(forall|i: int| 0 <= i < 35 ==> st.tab@[i] == t35[i]);
            assert(forall|i: int| 0 <= i < 6 ==> t35[i] == t6[i]);
            assert(entry_is(st.tab@[0], Seq::empty(), 0, ObjectKind::Type, TYP_NOTYPE, 0, true, 0, 0));
            assert forall|i: int| 1 <= i < 6 implies {
                let (n, o, t, a) = system_entries()[i - 1];
                entry_is(#[trigger] st.tab@[i], n, (i - 1) as usize, o, t, 0, true, 0, a)
            } by {
                let j = i - 1;
                assert(st.tab@[i] == t6[i]);
                assert(t6[1 + j] == t6[i]);
            }
            assert forall|i: int| 35 <= i < 39 implies {
                let (n, o, t, a) = system_entries()[i - 30];
                entry_is(#[trigger] st.tab@[i], n, (if i == 35 { 5 } else { (i - 1) as usize }), o, t, 0, true, 0, a)
            } by {
                let j = i - 35;
                assert(st.tab@[35 + j] == st.tab@[i]);
            }
            assert(st.btab@[0] == BTabEntry { last: 38, lpar: 0, psze: 0, vsze: 0 });
        }
        st
    }
}
} // verus!
