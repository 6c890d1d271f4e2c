//! The text of a symbol table dump: the identifier, block and array
//! tables as bordered columns, one row per entry.
use vstd::prelude::*;
use crate::semantic_analyzer::analyzer::SemanticAnalyzer;
use crate::semantic_analyzer::tab::{
    ATabEntry, BTabEntry, ObjectKind, SymbolTable, SymbolTableV, TabEntryV, TYP_CHAR, TYP_INT, object_kind_display,
};
use crate::parser::tree_printer::shows;
use crate::text::{decimal, i32_to_string, int_decimal, push_char, string_of, usize_to_string};

verus! {

/// `n` copies of `c`.
pub open spec fn repeat(c: char, n: nat) -> Seq<char> {
    Seq::new(n, |i: int| c)
}

/// `s` padded on the right with spaces to at least `w` characters.
pub open spec fn left(s: Seq<char>, w: nat) -> Seq<char> {
    if s.len() >= w { s } else { s + repeat(' ', (w - s.len()) as nat) }
}

/// `s` centred in `w` characters of `c`: the odd one of the padding goes
/// to the right.
pub open spec fn centered(s: Seq<char>, w: nat, c: char) -> Seq<char> {
    if s.len() >= w {
        s
    } else {
        let pad = (w - s.len()) as nat;
        repeat(c, pad / 2) + s + repeat(c, (pad - pad / 2) as nat)
    }
}

/// One table line: `| a | b | ... |` with each cell left-aligned in its
/// width, and a line break.
pub open spec fn row(cells: Seq<Seq<char>>, widths: Seq<nat>) -> Seq<char> {
    seq!['|'] + cells_text(cells, widths, cells.len() as int) + seq!['\n']
}

/// The first `n` cells, each as ` cell |`.
pub open spec fn cells_text(cells: Seq<Seq<char>>, widths: Seq<nat>, n: int) -> Seq<char>
    decreases n,
{
    if n <= 0 {
        Seq::empty()
    } else {
        cells_text(cells, widths, n - 1) + seq![' '] + left(cells[n - 1], widths[n - 1]) + " |"@
    }
}

/// `v` modulo `m` read as a two's complement number of that range.
pub open spec fn signed_low(v: int, m: int) -> int {
    let lo = v % m;
    if lo >= m / 2 { lo - m } else { lo }
}

/// The address column of an identifier: a constant's value as a signed
/// 32-bit number, a subrange type's bounds packed as two signed 16-bit
/// halves, and otherwise the number itself.
pub open spec fn adr_text(e: TabEntryV) -> Seq<char> {
    if e.obj == ObjectKind::Constant {
        int_decimal(signed_low(e.adr as int, 4294967296))
    } else if e.obj == ObjectKind::Type && e.ref_idx == 0 && (e.typ == TYP_INT || e.typ == TYP_CHAR) {
        if e.adr != 0 {
            int_decimal(signed_low(e.adr as int, 65536)) + ".."@ + int_decimal(signed_low(e.adr as int / 65536, 65536))
        } else {
            "0"@
        }
    } else {
        decimal(e.adr as nat)
    }
}

/// The widths of the identifier table's columns.
pub open spec fn tab_widths() -> Seq<nat> {
    seq![5, 15, 5, 6, 5, 5, 5, 5, 5]
}

/// The widths of the block table's columns.
pub open spec fn btab_widths() -> Seq<nat> {
    seq![5, 5, 5, 5, 5]
}

/// The widths of the array table's columns.
pub open spec fn atab_widths() -> Seq<nat> {
    seq![5, 5, 5, 5, 8, 8, 5, 5]
}

/// The line of identifier `i`.
pub open spec fn tab_row(i: nat, e: TabEntryV) -> Seq<char> {
    row(seq![
        decimal(i),
        if e.name.len() == 0 { "<empty>"@ } else { e.name },
        decimal(e.link as nat),
        object_kind_display(e.obj),
        decimal(e.typ as nat),
        decimal(e.ref_idx as nat),
        if e.normal { "1"@ } else { "0"@ },
        decimal(e.level as nat),
        adr_text(e),
    ], tab_widths())
}

/// The line of block `i`.
pub open spec fn btab_row(i: nat, b: BTabEntry) -> Seq<char> {
    row(seq![decimal(i), decimal(b.last as nat), decimal(b.lpar as nat), decimal(b.psze as nat), decimal(b.vsze as nat)],
        btab_widths())
}

/// The line of array type `i`, numbered from one.
pub open spec fn atab_row(i: nat, a: ATabEntry) -> Seq<char> {
    row(seq![
        decimal(i + 1),
        decimal(a.xtyp as nat),
        decimal(a.etyp as nat),
        decimal(a.eref as nat),
        int_decimal(a.low as int),
        int_decimal(a.high as int),
        decimal(a.elsz as nat),
        decimal(a.size as nat),
    ], atab_widths())
}

/// The lines of identifiers `1` up to `n`.
pub open spec fn tab_rows(tab: Seq<TabEntryV>, n: int) -> Seq<char>
    decreases n,
{
    if n <= 1 { Seq::empty() } else { tab_rows(tab, n - 1) + tab_row((n - 1) as nat, tab[n - 1]) }
}

/// The lines of blocks `0` up to `n`.
pub open spec fn btab_rows(btab: Seq<BTabEntry>, n: int) -> Seq<char>
    decreases n,
{
    if n <= 0 { Seq::empty() } else { btab_rows(btab, n - 1) + btab_row((n - 1) as nat, btab[n - 1]) }
}

/// The lines of array types `0` up to `n`.
pub open spec fn atab_rows(atab: Seq<ATabEntry>, n: int) -> Seq<char>
    decreases n,
{
    if n <= 0 { Seq::empty() } else { atab_rows(atab, n - 1) + atab_row((n - 1) as nat, atab[n - 1]) }
}

/// The identifier table: a title, the column names, a rule, the rows
/// from index one (index zero is the sentinel), and a closing rule.
pub open spec fn tab_section(st: SymbolTableV) -> Seq<char> {
    seq!['\n'] + centered(" TAB (Identifiers) "@, 95, '-') + seq!['\n']
        + row(seq!["Idx"@, "Name"@, "Link"@, "Obj"@, "Typ"@, "Ref"@, "Nrm"@, "Lev"@, "Adr"@], tab_widths())
        + seq!['|'] + repeat('-', 93) + "|\n"@
        + tab_rows(st.tab, st.tab.len() as int)
        + repeat('-', 95) + seq!['\n']
}

/// The block table, all of it.
pub open spec fn btab_section(st: SymbolTableV) -> Seq<char> {
    seq!['\n'] + centered(" BTAB (Blocks) "@, 55, '-') + seq!['\n']
        + row(seq!["Idx"@, "Last"@, "LPar"@, "PSze"@, "VSze"@], btab_widths())
        + seq!['|'] + repeat('-', 53) + "|\n"@
        + btab_rows(st.btab, st.btab.len() as int)
        + repeat('-', 55) + seq!['\n']
}

/// The array table, or a note that it is empty.
pub open spec fn atab_section(st: SymbolTableV) -> Seq<char> {
    if st.atab.len() == 0 {
        "\n[ATAB is empty]\n"@
    } else {
        seq!['\n'] + centered(" ATAB (Arrays) "@, 85, '-') + seq!['\n']
            + row(seq!["Idx"@, "XTyp"@, "ETyp"@, "ERef"@, "Low"@, "High"@, "ElSz"@, "Size"@], atab_widths())
            + seq!['|'] + repeat('-', 83) + "|\n"@
            + atab_rows(st.atab, st.atab.len() as int)
            + repeat('-', 85) + seq!['\n']
    }
}

/// The whole dump.
pub open spec fn tables_text(st: SymbolTableV) -> Seq<char> {
    "\n>> Symbol Table Dump\n"@ + tab_section(st) + btab_section(st) + atab_section(st)
}

/// A piece shown in the middle part of a text is shown in the text.
pub proof fn lemma_shows_within(a: Seq<char>, b: Seq<char>, c: Seq<char>, p: Seq<char>)
    requires
        shows(b, p),
    ensures
        shows(a + b + c, p),
{
    let i = choose|i: int| 0 <= i && i + p.len() <= b.len() && #[trigger] b.subrange(i, i + p.len()) == p;
    let t = a + b + c;
    let j = a.len() + i;
    assert(t.subrange(j, j + p.len()) =~= b.subrange(i, i + p.len()));
}

/// A text shows itself.
pub proof fn lemma_shows_self(p: Seq<char>)
    ensures
        shows(p, p),
{
    assert(p.subrange(0, (0 + p.len()) as int) =~= p);
}

/// The rows of identifiers `1` up to `n` show each of those identifiers.
pub proof fn lemma_tab_rows_show(tab: Seq<TabEntryV>, n: int, i: int)
    requires
        1 <= i < n <= tab.len(),
    ensures
        shows(tab_rows(tab, n), tab_row(i as nat, tab[i])),
    decreases n,
{
    let r = tab_row(i as nat, tab[i]);
    if i == n - 1 {
        lemma_shows_self(r);
        lemma_shows_within(tab_rows(tab, n - 1), r, Seq::empty(), r);
        assert(tab_rows(tab, n - 1) + r + Seq::empty() =~= tab_rows(tab, n));
    } else {
        lemma_tab_rows_show(tab, n - 1, i);
        lemma_shows_within(Seq::empty(), tab_rows(tab, n - 1), tab_row((n - 1) as nat, tab[n - 1]), r);
        assert(Seq::empty() + tab_rows(tab, n - 1) + tab_row((n - 1) as nat, tab[n - 1]) =~= tab_rows(tab, n));
    }
}

/// The rows of blocks `0` up to `n` show each of those blocks.
pub proof fn lemma_btab_rows_show(btab: Seq<BTabEntry>, n: int, i: int)
    requires
        0 <= i < n <= btab.len(),
    ensures
        shows(btab_rows(btab, n), btab_row(i as nat, btab[i])),
    decreases n,
{
    let r = btab_row(i as nat, btab[i]);
    if i == n - 1 {
        lemma_shows_self(r);
        lemma_shows_within(btab_rows(btab, n - 1), r, Seq::empty(), r);
        assert(btab_rows(btab, n - 1) + r + Seq::empty() =~= btab_rows(btab, n));
    } else {
        lemma_btab_rows_show(btab, n - 1, i);
        lemma_shows_within(Seq::empty(), btab_rows(btab, n - 1), btab_row((n - 1) as nat, btab[n - 1]), r);
        assert(Seq::empty() + btab_rows(btab, n - 1) + btab_row((n - 1) as nat, btab[n - 1]) =~= btab_rows(btab, n));
    }
}

/// The rows of array types `0` up to `n` show each of those types.
pub proof fn lemma_atab_rows_show(atab: Seq<ATabEntry>, n: int, i: int)
    requires
        0 <= i < n <= atab.len(),
    ensures
        shows(atab_rows(atab, n), atab_row(i as nat, atab[i])),
    decreases n,
{
    let r = atab_row(i as nat, atab[i]);
    if i == n - 1 {
        lemma_shows_self(r);
        lemma_shows_within(atab_rows(atab, n - 1), r, Seq::empty(), r);
        assert(atab_rows(atab, n - 1) + r + Seq::empty() =~= atab_rows(atab, n));
    } else {
        lemma_atab_rows_show(atab, n - 1, i);
        lemma_shows_within(Seq::empty(), atab_rows(atab, n - 1), atab_row((n - 1) as nat, atab[n - 1]), r);
        assert(Seq::empty() + atab_rows(atab, n - 1) + atab_row((n - 1) as nat, atab[n - 1]) =~= atab_rows(atab, n));
    }
}

/// The dump shows a row for every identifier but the sentinel at index
/// zero, for every block and for every array type, each under its index.
pub proof fn law_dump_shows_every_entry(st: SymbolTableV)
    ensures
        forall|i: int| 1 <= i < st.tab.len() ==> shows(tables_text(st), #[trigger] tab_row(i as nat, st.tab[i])),
        forall|i: int| 0 <= i < st.btab.len() ==> shows(tables_text(st), #[trigger] btab_row(i as nat, st.btab[i])),
        forall|i: int| 0 <= i < st.atab.len() ==> shows(tables_text(st), #[trigger] atab_row(i as nat, st.atab[i])),
{
    let head = "\n>> Symbol Table Dump\n"@;
    let t = tables_text(st);
    let ts = tab_section(st);
    let bs = btab_section(st);
    let as_ = atab_section(st);
    assert(t == head + ts + bs + as_);
    let tpre = seq!['\n'] + centered(" TAB (Identifiers) "@, 95, '-') + seq!['\n']
        + row(seq!["Idx"@, "Name"@, "Link"@, "Obj"@, "Typ"@, "Ref"@, "Nrm"@, "Lev"@, "Adr"@], tab_widths())
        + seq!['|'] + repeat('-', 93) + "|\n"@;
    let tpost = repeat('-', 95) + seq!['\n'];
    let trows = tab_rows(st.tab, st.tab.len() as int);
    assert forall|i: int| 1 <= i < st.tab.len() implies shows(t, #[trigger] tab_row(i as nat, st.tab[i])) by {
        lemma_tab_rows_show(st.tab, st.tab.len() as int, i);
        lemma_shows_within(tpre, trows, tpost, tab_row(i as nat, st.tab[i]));
        assert(ts == tpre + trows + tpost);
        lemma_shows_within(head, ts, bs + as_, tab_row(i as nat, st.tab[i]));
        assert(head + ts + (bs + as_) =~= t);
    }
    let bpre = seq!['\n'] + centered(" BTAB (Blocks) "@, 55, '-') + seq!['\n']
        + row(seq!["Idx"@, "Last"@, "LPar"@, "PSze"@, "VSze"@], btab_widths())
        + seq!['|'] + repeat('-', 53) + "|\n"@;
    let bpost = repeat('-', 55) + seq!['\n'];
    let brows = btab_rows(st.btab, st.btab.len() as int);
    assert forall|i: int| 0 <= i < st.btab.len() implies shows(t, #[trigger] btab_row(i as nat, st.btab[i])) by {
        lemma_btab_rows_show(st.btab, st.btab.len() as int, i);
        lemma_shows_within(bpre, brows, bpost, btab_row(i as nat, st.btab[i]));
        assert(bs == bpre + brows + bpost);
        lemma_shows_within(head + ts, bs, as_, btab_row(i as nat, st.btab[i]));
    }
    if st.atab.len() > 0 {
        let apre = seq!['\n'] + centered(" ATAB (Arrays) "@, 85, '-') + seq!['\n']
            + row(seq!["Idx"@, "XTyp"@, "ETyp"@, "ERef"@, "Low"@, "High"@, "ElSz"@, "Size"@], atab_widths())
            + seq!['|'] + repeat('-', 83) + "|\n"@;
        let apost = repeat('-', 85) + seq!['\n'];
        let arows = atab_rows(st.atab, st.atab.len() as int);
        assert forall|i: int| 0 <= i < st.atab.len() implies shows(t, #[trigger] atab_row(i as nat, st.atab[i])) by {
            lemma_atab_rows_show(st.atab, st.atab.len() as int, i);
            lemma_shows_within(apre, arows, apost, atab_row(i as nat, st.atab[i]));
            assert(as_ == apre + arows + apost);
            lemma_shows_within(head + ts + bs, as_, Seq::empty(), atab_row(i as nat, st.atab[i]));
            assert(head + ts + bs + as_ + Seq::empty() =~= t);
        }
    }
}

/// Appends `n` copies of `c`.
fn push_repeat(out: &mut String, c: char, n: usize)
    ensures
        final(out)@ == old(out)@ + repeat(c, n as nat),
{
    let mut k: usize = 0;
    while k < n
        invariant
            k <= n,
            out@ == old(out)@ + repeat(c, k as nat),
        decreases n - k,
    {
        push_char(out, c);
        k = k + 1;
        proof { assert(out@ =~= old(out)@ + repeat(c, k as nat)); }
    }
}

/// Appends `s` padded on the right to `w` characters.
fn push_left(out: &mut String, s: &str, w: usize)
    ensures
        final(out)@ == old(out)@ + left(s@, w as nat),
{
    out.append(s);
    let n = s.unicode_len();
    if n < w {
        push_repeat(out, ' ', w - n);
    } else {
        proof { assert(out@ =~= old(out)@ + left(s@, w as nat)); }
    }
}

/// Appends `s` centred in `w` characters of `c`.
fn push_centered(out: &mut String, s: &str, w: usize, c: char)
    ensures
        final(out)@ == old(out)@ + centered(s@, w as nat, c),
{
    let n = s.unicode_len();
    if n >= w {
        out.append(s);
    } else {
        let pad = w - n;
        push_repeat(out, c, pad / 2);
        out.append(s);
        push_repeat(out, c, pad - pad / 2);
        proof { assert(out@ =~= old(out)@ + centered(s@, w as nat, c)); }
    }
}

/// Appends the cells of one table line, the borders, and the line break.
fn push_row(out: &mut String, cells: &Vec<String>, widths: &Vec<usize>)
    requires
        cells@.len() == widths@.len(),
    ensures
        final(out)@ == old(out)@ + row(cells@.map_values(|s: String| s@), widths@.map_values(|w: usize| w as nat)),
{
    let ghost cs = cells@.map_values(|s: String| s@);
    let ghost ws = widths@.map_values(|w: usize| w as nat);
    push_char(out, '|');
    let mut k: usize = 0;
    while k < cells.len()
        invariant
            k <= cells@.len(),
            cells@.len() == widths@.len(),
            cs == cells@.map_values(|s: String| s@),
            ws == widths@.map_values(|w: usize| w as nat),
            out@ == old(out)@ + seq!['|'] + cells_text(cs, ws, k as int),
        decreases cells@.len() - k,
    {
        push_char(out, ' ');
        push_left(out, cells[k].as_str(), widths[k]);
        out.append(" |");
        proof {
            reveal_strlit(" |");
            assert(cs[k as int] == cells@[k as int]@);
            assert(ws[k as int] == widths@[k as int] as nat);
            assert(out@ =~= old(out)@ + seq!['|'] + cells_text(cs, ws, k + 1));
        }
        k = k + 1;
    }
    push_char(out, '\n');
    proof { assert(out@ =~= old(out)@ + row(cs, ws)); }
}

/// The address column of `e`.
fn adr_string(e: &crate::semantic_analyzer::tab::TabEntry) -> (r: String)
    ensures
        r@ == adr_text(e@),
{
    let a: u64 = e.adr as u64;
    match e.obj {
        ObjectKind::Constant => {
            let lo: u64 = a % 4294967296;
            let v: i64 = if lo >= 2147483648 { lo as i64 - 4294967296 } else { lo as i64 };
            i32_to_string(v as i32)
        },
        ObjectKind::Type => {
            if e.ref_idx == 0 && (e.typ == TYP_INT || e.typ == TYP_CHAR) {
                if e.adr != 0 {
                    let lo: u64 = a % 65536;
                    let hi: u64 = (a / 65536) % 65536;
                    let l: i32 = if lo >= 32768 { lo as i32 - 65536 } else { lo as i32 };
                    let h: i32 = if hi >= 32768 { hi as i32 - 65536 } else { hi as i32 };
                    let mut s = i32_to_string(l);
                    s.append("..");
                    let t = i32_to_string(h);
                    s.append(t.as_str());
                    s
                } else {
                    string_of("0")
                }
            } else {
                usize_to_string(e.adr)
            }
        },
        _ => usize_to_string(e.adr),
    }
}

/// Appends the line of identifier `i`.
fn push_tab_row(out: &mut String, i: usize, e: &crate::semantic_analyzer::tab::TabEntry)
    ensures
        final(out)@ == old(out)@ + tab_row(i as nat, e@),
{
    let name = if e.name.unicode_len() == 0 { string_of("<empty>") } else { e.name.clone() };
    let normal = if e.normal { string_of("1") } else { string_of("0") };
    let mut cells: Vec<String> = Vec::new();
    cells.push(usize_to_string(i));
    cells.push(name);
    cells.push(usize_to_string(e.link));
    cells.push(e.obj.to_string());
    cells.push(usize_to_string(e.typ));
    cells.push(usize_to_string(e.ref_idx));
    cells.push(normal);
    cells.push(usize_to_string(e.level));
    cells.push(adr_string(e));
    let mut widths: Vec<usize> = Vec::new();
    widths.push(5); widths.push(15); widths.push(5); widths.push(6); widths.push(5);
    widths.push(5); widths.push(5); widths.push(5); widths.push(5);
    proof {
        let ev = e@;
        assert(cells@.map_values(|s: String| s@) =~= seq![
            decimal(i as nat),
            if ev.name.len() == 0 { "<empty>"@ } else { ev.name },
            decimal(ev.link as nat),
            object_kind_display(ev.obj),
            decimal(ev.typ as nat),
            decimal(ev.ref_idx as nat),
            if ev.normal { "1"@ } else { "0"@ },
            decimal(ev.level as nat),
            adr_text(ev),
        ]);
        assert(widths@.map_values(|w: usize| w as nat) =~= tab_widths());
    }
    push_row(out, &cells, &widths);
}

/// Appends the line of block `i`.
fn push_btab_row(out: &mut String, i: usize, b: &BTabEntry)
    ensures
        final(out)@ == old(out)@ + btab_row(i as nat, *b),
{
    let mut cells: Vec<String> = Vec::new();
    cells.push(usize_to_string(i));
    cells.push(usize_to_string(b.last));
    cells.push(usize_to_string(b.lpar));
    cells.push(usize_to_string(b.psze));
    cells.push(usize_to_string(b.vsze));
    let mut widths: Vec<usize> = Vec::new();
    widths.push(5); widths.push(5); widths.push(5); widths.push(5); widths.push(5);
    proof {
        assert(cells@.map_values(|s: String| s@) =~= seq![
            decimal(i as nat), decimal(b.last as nat), decimal(b.lpar as nat), decimal(b.psze as nat), decimal(b.vsze as nat)]);
        assert(widths@.map_values(|w: usize| w as nat) =~= btab_widths());
    }
    push_row(out, &cells, &widths);
}

/// Appends the line of array type `i`, numbered from one.
fn push_atab_row(out: &mut String, i: usize, a: &ATabEntry)
    requires
        i < usize::MAX,
    ensures
        final(out)@ == old(out)@ + atab_row(i as nat, *a),
{
    let mut cells: Vec<String> = Vec::new();
    cells.push(usize_to_string(i + 1));
    cells.push(usize_to_string(a.xtyp));
    cells.push(usize_to_string(a.etyp));
    cells.push(usize_to_string(a.eref));
    cells.push(i32_to_string(a.low));
    cells.push(i32_to_string(a.high));
    cells.push(usize_to_string(a.elsz));
    cells.push(usize_to_string(a.size));
    let mut widths: Vec<usize> = Vec::new();
    widths.push(5); widths.push(5); widths.push(5); widths.push(5);
    widths.push(8); widths.push(8); widths.push(5); widths.push(5);
    proof {
        assert(cells@.map_values(|s: String| s@) =~= seq![
            decimal((i + 1) as nat),
            decimal(a.xtyp as nat),
            decimal(a.etyp as nat),
            decimal(a.eref as nat),
            int_decimal(a.low as int),
            int_decimal(a.high as int),
            decimal(a.elsz as nat),
            decimal(a.size as nat),
        ]);
        assert(widths@.map_values(|w: usize| w as nat) =~= atab_widths());
    }
    push_row(out, &cells, &widths);
}

/// Appends a table's column line from its names and widths.
fn push_header(out: &mut String, names: &Vec<&str>, widths: &Vec<usize>)
    requires
        names@.len() == widths@.len(),
    ensures
        final(out)@ == old(out)@ + row(names@.map_values(|s: &str| s@), widths@.map_values(|w: usize| w as nat)),
{
    let mut cells: Vec<String> = Vec::new();
    let mut k: usize = 0;
    while k < names.len()
        invariant
            k <= names@.len(),
            cells@.len() == k,
            forall|j: int| 0 <= j < k ==> #[trigger] cells@[j]@ == names@[j]@,
        decreases names@.len() - k,
    {
        cells.push(string_of(names[k]));
        k = k + 1;
    }
    proof {
        assert(cells@.map_values(|s: String| s@) =~= names@.map_values(|s: &str| s@));
    }
    push_row(out, &cells, widths);
}

impl SymbolTable {
    /// Appends the identifier table.
    fn push_tab_section(&self, out: &mut String)
        ensures
            final(out)@ == old(out)@ + tab_section(self@),
    {
        push_char(out, '\n');
        push_centered(out, " TAB (Identifiers) ", 95, '-');
        push_char(out, '\n');
        let mut names: Vec<&str> = Vec::new();
        names.push("Idx"); names.push("Name"); names.push("Link"); names.push("Obj"); names.push("Typ");
        names.push("Ref"); names.push("Nrm"); names.push("Lev"); names.push("Adr");
        let mut widths: Vec<usize> = Vec::new();
        widths.push(5); widths.push(15); widths.push(5); widths.push(6); widths.push(5);
        widths.push(5); widths.push(5); widths.push(5); widths.push(5);
        proof {
            assert(names@.map_values(|s: &str| s@) =~= seq!["Idx"@, "Name"@, "Link"@, "Obj"@, "Typ"@, "Ref"@, "Nrm"@, "Lev"@, "Adr"@]);
            assert(widths@.map_values(|w: usize| w as nat) =~= tab_widths());
        }
        push_header(out, &names, &widths);
        push_char(out, '|');
        push_repeat(out, '-', 93);
        out.append("|\n");
        let ghost start = out@;
        let ghost tv = self@.tab;
        let mut i: usize = 1;
        while i < self.tab.len()
            invariant
                1 <= i,
                i <= (if tv.len() >= 1 { tv.len() } else { 1 }),
                tv == self@.tab,
                tv.len() == self.tab@.len(),
                out@ == start + tab_rows(tv, i as int),
            decreases self.tab@.len() - i,
        {
            push_tab_row(out, i, &self.tab[i]);
            proof { assert(tv[i as int] == self.tab@[i as int]@); }
            i = i + 1;
        }
        proof {
            if tv.len() == 0 {
                assert(tab_rows(tv, tv.len() as int) =~= tab_rows(tv, i as int));
            }
        }
        push_repeat(out, '-', 95);
        push_char(out, '\n');
        proof { assert(out@ =~= old(out)@ + tab_section(self@)); }
    }

    /// Appends the block table.
    fn push_btab_section(&self, out: &mut String)
        ensures
            final(out)@ == old(out)@ + btab_section(self@),
    {
        push_char(out, '\n');
        push_centered(out, " BTAB (Blocks) ", 55, '-');
        push_char(out, '\n');
        let mut names: Vec<&str> = Vec::new();
        names.push("Idx"); names.push("Last"); names.push("LPar"); names.push("PSze"); names.push("VSze");
        let mut widths: Vec<usize> = Vec::new();
        widths.push(5); widths.push(5); widths.push(5); widths.push(5); widths.push(5);
        proof {
            assert(names@.map_values(|s: &str| s@) =~= seq!["Idx"@, "Last"@, "LPar"@, "PSze"@, "VSze"@]);
            assert(widths@.map_values(|w: usize| w as nat) =~= btab_widths());
        }
        push_header(out, &names, &widths);
        push_char(out, '|');
        push_repeat(out, '-', 53);
        out.append("|\n");
        let ghost start = out@;
        let mut i: usize = 0;
        while i < self.btab.len()
            invariant
                i <= self.btab@.len(),
                out@ == start + btab_rows(self@.btab, i as int),
            decreases self.btab@.len() - i,
        {
            push_btab_row(out, i, &self.btab[i]);
            i = i + 1;
        }
        push_repeat(out, '-', 55);
        push_char(out, '\n');
        proof { assert(out@ =~= old(out)@ + btab_section(self@)); }
    }

    /// Appends the array table, or the note that it is empty.
    fn push_atab_section(&self, out: &mut String)
        ensures
            final(out)@ == old(out)@ + atab_section(self@),
    {
        if self.atab.len() == 0 {
            out.append("\n[ATAB is empty]\n");
            return;
        }
        push_char(out, '\n');
        push_centered(out, " ATAB (Arrays) ", 85, '-');
        push_char(out, '\n');
        let mut names: Vec<&str> = Vec::new();
        names.push("Idx"); names.push("XTyp"); names.push("ETyp"); names.push("ERef");
        names.push("Low"); names.push("High"); names.push("ElSz"); names.push("Size");
        let mut widths: Vec<usize> = Vec::new();
        widths.push(5); widths.push(5); widths.push(5); widths.push(5);
        widths.push(8); widths.push(8); widths.push(5); widths.push(5);
        proof {
            assert(names@.map_values(|s: &str| s@) =~= seq!["Idx"@, "XTyp"@, "ETyp"@, "ERef"@, "Low"@, "High"@, "ElSz"@, "Size"@]);
            assert(widths@.map_values(|w: usize| w as nat) =~= atab_widths());
        }
        push_header(out, &names, &widths);
        push_char(out, '|');
        push_repeat(out, '-', 83);
        out.append("|\n");
        let ghost start = out@;
        let mut i: usize = 0;
        while i < self.atab.len()
            invariant
                i <= self.atab@.len(),
                out@ == start + atab_rows(self@.atab, i as int),
            decreases self.atab@.len() - i,
        {
            push_atab_row(out, i, &self.atab[i]);
            i = i + 1;
        }
        push_repeat(out, '-', 85);
        push_char(out, '\n');
        proof { assert(out@ =~= old(out)@ + atab_section(self@)); }
    }

    /// The dump of the identifier, block and array tables, as text.
    pub fn print_tables(&self) -> (r: String)
        ensures
            r@ == tables_text(self@),
    {
        let mut out = string_of("\n>> Symbol Table Dump\n");
        self.push_tab_section(&mut out);
        self.push_btab_section(&mut out);
        self.push_atab_section(&mut out);
        proof { assert(out@ =~= tables_text(self@)); }
        out
    }
}

impl SemanticAnalyzer {
    /// The dump of the analyzer's symbol tables, as text.
    pub fn print_tables(&self) -> (r: String)
        ensures
            r@ == tables_text(self.symbol_table@),
    {
        self.symbol_table.print_tables()
    }
}

} // verus!
