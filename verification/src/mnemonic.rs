//! The table of instruction mnemonics.

use vstd::prelude::*;
use crate::body::{OperationKind, OperationKindView};
use crate::scan::starts_with;

verus! {

/// The kind that the table gives to a mnemonic. The match is exact and
/// case-sensitive; a mnemonic that the table lacks is kept as it is.
pub open spec fn kind_of(m: Seq<char>) -> OperationKindView {
    if m == "ld.param.u32"@ {
        OperationKindView::LdParamU32
    } else if m == "mov.u32"@ {
        OperationKindView::MovU32
    } else if m == "mad.lo.s32"@ {
        OperationKindView::MadLoS32
    } else if m == "setp.lt.s32"@ {
        OperationKindView::SetpLtS32
    } else if m == "ld.param.u64"@ {
        OperationKindView::LdParamU64
    } else if m == "cvta.to.global.u64"@ {
        OperationKindView::CvtaToGlobalU64
    } else if m == "mul.wide.s32"@ {
        OperationKindView::MulWideS32
    } else if m == "add.s64"@ {
        OperationKindView::AddS64
    } else if m == "ld.global.f32"@ {
        OperationKindView::LdGlobalF32
    } else if m == "mul.rn.f32"@ {
        OperationKindView::MulRnF32
    } else if m == "st.global.f32"@ {
        OperationKindView::StGlobalF32
    } else if m == "mov.u64"@ {
        OperationKindView::MovU64
    } else if m == "cvta.global.u64"@ {
        OperationKindView::CvtaGlobalU64
    } else if m == "setp.ge.s32"@ {
        OperationKindView::SetpGeS32
    } else if m == "cvt.s64.s32"@ {
        OperationKindView::CvtS64S32
    } else if m == "add.u64"@ {
        OperationKindView::AddU64
    } else if m == "mul.lo.s32"@ {
        OperationKindView::MulLoS32
    } else {
        OperationKindView::Unknown(m)
    }
}

/// Whether the text is exactly the literal.
pub fn is_literal(text: &[char], lit: &str) -> (r: bool)
    ensures
        r == (text@ == lit@),
{
    let same = starts_with(text, lit) && lit.unicode_len() == text.len();
    proof {
        if same {
            assert(text@ =~= lit@);
        }
    }
    same
}

/// Looks a mnemonic up in the table.
pub fn classify_mnemonic<'a>(m: &'a [char]) -> (kind: OperationKind<'a>)
    ensures
        kind@ == kind_of(m@),
{
    if is_literal(m, "ld.param.u32") {
        OperationKind::LdParamU32
    } else if is_literal(m, "mov.u32") {
        OperationKind::MovU32
    } else if is_literal(m, "mad.lo.s32") {
        OperationKind::MadLoS32
    } else if is_literal(m, "setp.lt.s32") {
        OperationKind::SetpLtS32
    } else if is_literal(m, "ld.param.u64") {
        OperationKind::LdParamU64
    } else if is_literal(m, "cvta.to.global.u64") {
        OperationKind::CvtaToGlobalU64
    } else if is_literal(m, "mul.wide.s32") {
        OperationKind::MulWideS32
    } else if is_literal(m, "add.s64") {
        OperationKind::AddS64
    } else if is_literal(m, "ld.global.f32") {
        OperationKind::LdGlobalF32
    } else if is_literal(m, "mul.rn.f32") {
        OperationKind::MulRnF32
    } else if is_literal(m, "st.global.f32") {
        OperationKind::StGlobalF32
    } else if is_literal(m, "mov.u64") {
        OperationKind::MovU64
    } else if is_literal(m, "cvta.global.u64") {
        OperationKind::CvtaGlobalU64
    } else if is_literal(m, "setp.ge.s32") {
        OperationKind::SetpGeS32
    } else if is_literal(m, "cvt.s64.s32") {
        OperationKind::CvtS64S32
    } else if is_literal(m, "add.u64") {
        OperationKind::AddU64
    } else if is_literal(m, "mul.lo.s32") {
        OperationKind::MulLoS32
    } else {
        OperationKind::Unknown(m)
    }
}

/// The mnemonics of the table, character by character.
pub proof fn lemma_mnemonic_texts()
    ensures
        "ld.param.u32"@ == seq!['l', 'd', '.', 'p', 'a', 'r', 'a', 'm', '.', 'u', '3', '2'],
        "mov.u32"@ == seq!['m', 'o', 'v', '.', 'u', '3', '2'],
        "mad.lo.s32"@ == seq!['m', 'a', 'd', '.', 'l', 'o', '.', 's', '3', '2'],
        "setp.lt.s32"@ == seq!['s', 'e', 't', 'p', '.', 'l', 't', '.', 's', '3', '2'],
        "ld.param.u64"@ == seq!['l', 'd', '.', 'p', 'a', 'r', 'a', 'm', '.', 'u', '6', '4'],
        "cvta.to.global.u64"@ == seq!['c', 'v', 't', 'a', '.', 't', 'o', '.', 'g', 'l', 'o', 'b', 'a', 'l', '.', 'u', '6', '4'],
        "mul.wide.s32"@ == seq!['m', 'u', 'l', '.', 'w', 'i', 'd', 'e', '.', 's', '3', '2'],
        "add.s64"@ == seq!['a', 'd', 'd', '.', 's', '6', '4'],
        "ld.global.f32"@ == seq!['l', 'd', '.', 'g', 'l', 'o', 'b', 'a', 'l', '.', 'f', '3', '2'],
        "mul.rn.f32"@ == seq!['m', 'u', 'l', '.', 'r', 'n', '.', 'f', '3', '2'],
        "st.global.f32"@ == seq!['s', 't', '.', 'g', 'l', 'o', 'b', 'a', 'l', '.', 'f', '3', '2'],
        "mov.u64"@ == seq!['m', 'o', 'v', '.', 'u', '6', '4'],
        "cvta.global.u64"@ == seq!['c', 'v', 't', 'a', '.', 'g', 'l', 'o', 'b', 'a', 'l', '.', 'u', '6', '4'],
        "setp.ge.s32"@ == seq!['s', 'e', 't', 'p', '.', 'g', 'e', '.', 's', '3', '2'],
        "cvt.s64.s32"@ == seq!['c', 'v', 't', '.', 's', '6', '4', '.', 's', '3', '2'],
        "add.u64"@ == seq!['a', 'd', 'd', '.', 'u', '6', '4'],
        "mul.lo.s32"@ == seq!['m', 'u', 'l', '.', 'l', 'o', '.', 's', '3', '2'],
{
    reveal_strlit("ld.param.u32");
    assert("ld.param.u32"@ =~= seq!['l', 'd', '.', 'p', 'a', 'r', 'a', 'm', '.', 'u', '3', '2']);
    reveal_strlit("mov.u32");
    assert("mov.u32"@ =~= seq!['m', 'o', 'v', '.', 'u', '3', '2']);
    reveal_strlit("mad.lo.s32");
    assert("mad.lo.s32"@ =~= seq!['m', 'a', 'd', '.', 'l', 'o', '.', 's', '3', '2']);
    reveal_strlit("setp.lt.s32");
    assert("setp.lt.s32"@ =~= seq!['s', 'e', 't', 'p', '.', 'l', 't', '.', 's', '3', '2']);
    reveal_strlit("ld.param.u64");
    assert("ld.param.u64"@ =~= seq!['l', 'd', '.', 'p', 'a', 'r', 'a', 'm', '.', 'u', '6', '4']);
    reveal_strlit("cvta.to.global.u64");
    assert("cvta.to.global.u64"@ =~= seq!['c', 'v', 't', 'a', '.', 't', 'o', '.', 'g', 'l', 'o', 'b', 'a', 'l', '.', 'u', '6', '4']);
    reveal_strlit("mul.wide.s32");
    assert("mul.wide.s32"@ =~= seq!['m', 'u', 'l', '.', 'w', 'i', 'd', 'e', '.', 's', '3', '2']);
    reveal_strlit("add.s64");
    assert("add.s64"@ =~= seq!['a', 'd', 'd', '.', 's', '6', '4']);
    reveal_strlit("ld.global.f32");
    assert("ld.global.f32"@ =~= seq!['l', 'd', '.', 'g', 'l', 'o', 'b', 'a', 'l', '.', 'f', '3', '2']);
    reveal_strlit("mul.rn.f32");
    assert("mul.rn.f32"@ =~= seq!['m', 'u', 'l', '.', 'r', 'n', '.', 'f', '3', '2']);
    reveal_strlit("st.global.f32");
    assert("st.global.f32"@ =~= seq!['s', 't', '.', 'g', 'l', 'o', 'b', 'a', 'l', '.', 'f', '3', '2']);
    reveal_strlit("mov.u64");
    assert("mov.u64"@ =~= seq!['m', 'o', 'v', '.', 'u', '6', '4']);
    reveal_strlit("cvta.global.u64");
    assert("cvta.global.u64"@ =~= seq!['c', 'v', 't', 'a', '.', 'g', 'l', 'o', 'b', 'a', 'l', '.', 'u', '6', '4']);
    reveal_strlit("setp.ge.s32");
    assert("setp.ge.s32"@ =~= seq!['s', 'e', 't', 'p', '.', 'g', 'e', '.', 's', '3', '2']);
    reveal_strlit("cvt.s64.s32");
    assert("cvt.s64.s32"@ =~= seq!['c', 'v', 't', '.', 's', '6', '4', '.', 's', '3', '2']);
    reveal_strlit("add.u64");
    assert("add.u64"@ =~= seq!['a', 'd', 'd', '.', 'u', '6', '4']);
    reveal_strlit("mul.lo.s32");
    assert("mul.lo.s32"@ =~= seq!['m', 'u', 'l', '.', 'l', 'o', '.', 's', '3', '2']);
}

/// The table, entry by entry.
pub proof fn lemma_table()
    ensures
        kind_of("ld.param.u32"@) == OperationKindView::LdParamU32,
        kind_of("mov.u32"@) == OperationKindView::MovU32,
        kind_of("mad.lo.s32"@) == OperationKindView::MadLoS32,
        kind_of("setp.lt.s32"@) == OperationKindView::SetpLtS32,
        kind_of("ld.param.u64"@) == OperationKindView::LdParamU64,
        kind_of("cvta.to.global.u64"@) == OperationKindView::CvtaToGlobalU64,
        kind_of("mul.wide.s32"@) == OperationKindView::MulWideS32,
        kind_of("add.s64"@) == OperationKindView::AddS64,
        kind_of("ld.global.f32"@) == OperationKindView::LdGlobalF32,
        kind_of("mul.rn.f32"@) == OperationKindView::MulRnF32,
        kind_of("st.global.f32"@) == OperationKindView::StGlobalF32,
        kind_of("mov.u64"@) == OperationKindView::MovU64,
        kind_of("cvta.global.u64"@) == OperationKindView::CvtaGlobalU64,
        kind_of("setp.ge.s32"@) == OperationKindView::SetpGeS32,
        kind_of("cvt.s64.s32"@) == OperationKindView::CvtS64S32,
        kind_of("add.u64"@) == OperationKindView::AddU64,
        kind_of("mul.lo.s32"@) == OperationKindView::MulLoS32,
{
    lemma_mnemonic_texts();
}

/// The character may stand in a mnemonic of the table: a small letter, a
/// digit or a period.
pub open spec fn plain(c: char) -> bool {
    ('a' <= c && c <= 'z') || ('0' <= c && c <= '9') || c == '.'
}

/// The mnemonics of the table are made of small letters, digits and
/// periods, and begin with a letter other than `b` and `r`.
pub proof fn lemma_table_mnemonics(m: Seq<char>)
    requires
        !(kind_of(m) is Unknown),
    ensures
        m.len() > 0,
        forall|i: int| 0 <= i < m.len() ==> plain(#[trigger] m[i]),
        m[0] == 'l' || m[0] == 'm' || m[0] == 's' || m[0] == 'c' || m[0] == 'a',
{
    lemma_mnemonic_texts();
}

} // verus!
