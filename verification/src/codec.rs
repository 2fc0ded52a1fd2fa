//! The persisted form of a game: one JSON object, written and read here.
//!
//! The writing is canonical: fixed key order, no whitespace, integers in
//! canonical decimal. The reader accepts exactly the canonical form and
//! nothing else, so every accepted text is the writing of the game it
//! yields — loading a saved game gives back the same game (with the
//! consumed time interval reset, which is not persisted).

use vstd::prelude::*;
use vstd::string::StrSliceExecFns;
use vstd::string::StringExecFns;

use crate::digits::{
    dec_digits, digit_run_end, digits_value, is_digit, lemma_dec_digits_value,
    lemma_dec_digits_wf, lemma_digit_run_digits, lemma_digit_run_of, lemma_digits_canonical,
    parse_u64, append_u64, valid_u64_at,
};
use crate::entity::{valid_name, valid_name_char, IdleEntity};
use crate::game::{Game, ROSTER_SIZE};

verus! {

/// A save that cannot be read back: the text is not the canonical
/// writing of any well-formed game.
#[derive(Debug, PartialEq, Eq)]
pub enum ParseError {
    Malformed,
}

/// The text `t` stands in `s` at position `p`.
pub open spec fn text_at(s: Seq<char>, p: int, t: Seq<char>) -> bool {
    &&& 0 <= p
    &&& p + t.len() <= s.len()
    &&& s.subrange(p, p + t.len()) == t
}

/// A text stands at `p` exactly when its two halves stand in a row.
proof fn lemma_text_at_concat(s: Seq<char>, p: int, x: Seq<char>, y: Seq<char>)
    requires
        0 <= p,
        p + x.len() + y.len() <= s.len(),
    ensures
        text_at(s, p, x + y) <==> (text_at(s, p, x) && text_at(s, p + x.len(), y)),
{
    if text_at(s, p, x + y) {
        assert forall|k: int| 0 <= k < x.len() implies s.subrange(p, p + x.len())[k] == x[k] by {
            assert(s.subrange(p, p + x.len() + y.len())[k] == s[p + k]);
            assert((x + y)[k] == x[k]);
        }
        assert(s.subrange(p, p + x.len()) =~= x);
        assert forall|k: int|
            0 <= k < y.len() implies s.subrange(p + x.len(), p + x.len() + y.len())[k] == y[k] by {
            assert(s.subrange(p, p + x.len() + y.len())[x.len() + k] == s[p + x.len() + k]);
            assert((x + y)[x.len() + k] == y[k]);
        }
        assert(s.subrange(p + x.len(), p + x.len() + y.len()) =~= y);
    }
    if text_at(s, p, x) && text_at(s, p + x.len(), y) {
        assert(s.subrange(p, p + x.len() + y.len()) =~= x + y);
    }
}

/// The same record: every persisted part of the two entities agrees.
pub open spec fn entity_equiv(a: IdleEntity, b: IdleEntity) -> bool {
    &&& a.name@ == b.name@
    &&& a.level == b.level
    &&& a.base_gold_per_second == b.base_gold_per_second
    &&& a.base_upgrade_cost == b.base_upgrade_cost
    &&& a.upgrade_cost_factor_percent == b.upgrade_cost_factor_percent
}

/// The same game: every persisted part of the two games agrees.
pub open spec fn game_equiv(a: Game, b: Game) -> bool {
    &&& a.init_time_stamp_ms == b.init_time_stamp_ms
    &&& a.last_time_stamp_ms == b.last_time_stamp_ms
    &&& a.current_delta_time_ms == b.current_delta_time_ms
    &&& a.current_gold == b.current_gold
    &&& a.idle_entities@.len() == b.idle_entities@.len()
    &&& forall|i: int|
        0 <= i < a.idle_entities@.len() ==> entity_equiv(
            #[trigger] a.idle_entities@[i],
            b.idle_entities@[i],
        )
}

/// The canonical writing of one entity.
pub open spec fn render_entity(e: IdleEntity) -> Seq<char> {
    "{\"name\":\""@ + e.name@ + "\",\"level\":"@ + dec_digits(e.level as nat)
        + ",\"base_production_rate\":"@ + dec_digits(e.base_gold_per_second as nat)
        + ",\"base_upgrade_cost\":"@ + dec_digits(e.base_upgrade_cost as nat)
        + ",\"upgrade_cost_growth_factor\":"@ + dec_digits(e.upgrade_cost_factor_percent as nat)
        + "}"@
}

/// The canonical writing of the full roster, comma-separated.
pub open spec fn render_entities(s: Seq<IdleEntity>) -> Seq<char> {
    render_entity(s[0]) + ","@ + render_entity(s[1]) + ","@ + render_entity(s[2]) + ","@
        + render_entity(s[3]) + ","@ + render_entity(s[4]) + ","@ + render_entity(s[5]) + ","@
        + render_entity(s[6])
}

/// The canonical writing of a game's scalar header, up to and including
/// the opening of the entity array.
pub open spec fn game_header(init: u64, last: u64, gold: u64) -> Seq<char> {
    "{\"init_timestamp\":"@ + dec_digits(init as nat) + ",\"last_update_timestamp\":"@
        + dec_digits(last as nat) + ",\"currency\":"@ + dec_digits(gold as nat)
        + ",\"entities\":["@
}

/// The canonical writing of a whole game. The consumed time interval is
/// transient and is not persisted.
pub open spec fn render_game(g: Game) -> Seq<char> {
    game_header(g.init_time_stamp_ms, g.last_time_stamp_ms, g.current_gold) + render_entities(
        g.idle_entities@,
    ) + "]}"@
}

/// Where the run of name characters beginning at `i` ends: the first
/// position at or after `i` past the end or holding no name character.
pub open spec fn name_run_end(s: Seq<char>, i: int) -> int
    decreases s.len() - i,
{
    if 0 <= i < s.len() && valid_name_char(s[i]) {
        name_run_end(s, i + 1)
    } else {
        i
    }
}

/// Where a run of name characters is followed by something else (or the
/// end), the run end is exactly there.
proof fn lemma_name_run_of(s: Seq<char>, p: int, q: int)
    requires
        0 <= p <= q <= s.len(),
        forall|k: int| p <= k < q ==> valid_name_char(#[trigger] s[k]),
        q == s.len() || !valid_name_char(s[q]),
    ensures
        name_run_end(s, p) == q,
    decreases q - p,
{
    if p < q {
        lemma_name_run_of(s, p + 1, q);
    }
}

/// Reads the literal `lit` at position `i`; `None` exactly where it does
/// not stand there.
fn expect_lit(s: &str, i: usize, lit: &str) -> (r: Option<usize>)
    requires
        i <= s@.len(),
    ensures
        r is Some <==> text_at(s@, i as int, lit@),
        r matches Some(j) ==> j == i + lit@.len() && j <= s@.len(),
{
    let slen = s.unicode_len();
    let n = lit.unicode_len();
    if n > slen - i {
        return None;
    }
    let mut k: usize = 0;
    while k < n
        invariant
            slen == s@.len(),
            n == lit@.len(),
            i + n <= slen,
            k <= n,
            forall|m: int| 0 <= m < k ==> s@[i + m] == lit@[m],
        decreases n - k,
    {
        if s.get_char(i + k) != lit.get_char(k) {
            proof {
                assert(s@.subrange(i as int, i + n as int)[k as int] == s@[i + k]);
            }
            return None;
        }
        k = k + 1;
    }
    proof {
        assert(s@.subrange(i as int, (i + n) as int) =~= lit@);
    }
    Some(i + n)
}

/// Reads an entity name at position `i`: the longest run of name
/// characters, which must be closed by a double quote. `None` exactly
/// where the run ends at anything else.
fn parse_name(s: &str, i: usize) -> (r: Option<(String, usize)>)
    requires
        i <= s@.len(),
    ensures
        r is Some <==> (name_run_end(s@, i as int) < s@.len() && s@[name_run_end(s@, i as int)]
            == '"'),
        r matches Some((nm, j)) ==> {
            &&& i <= j < s@.len()
            &&& j == name_run_end(s@, i as int)
            &&& nm@ == s@.subrange(i as int, j as int)
            &&& valid_name(nm@)
            &&& s@[j as int] == '"'
        },
{
    let slen = s.unicode_len();
    let mut j = i;
    while j < slen
        invariant
            slen == s@.len(),
            i <= j <= slen,
            name_run_end(s@, i as int) == name_run_end(s@, j as int),
            forall|k: int| i <= k < j ==> valid_name_char(#[trigger] s@[k]),
        decreases slen - j,
    {
        let c = s.get_char(j);
        if c == '"' {
            let nm = s.substring_char(i, j).to_owned();
            proof {
                assert forall|k: int| 0 <= k < nm@.len() implies valid_name_char(
                    #[trigger] nm@[k],
                ) by {
                    assert(nm@[k] == s@[i + k]);
                }
            }
            return Some((nm, j));
        }
        let name_char = ' ' <= c && c <= '~' && c != '\\';
        if !name_char {
            return None;
        }
        j = j + 1;
    }
    None
}

/// Everything the reader relies on about the writing of one entity at
/// position `i`: where each piece stands, the character at each piece
/// boundary, and the run ends and values of the name and number runs.
pub open spec fn entity_parse_facts(s: Seq<char>, i: int, e: IdleEntity) -> bool {
    let l1 = "{\"name\":\""@;
    let l2 = "\",\"level\":"@;
    let l3 = ",\"base_production_rate\":"@;
    let l4 = ",\"base_upgrade_cost\":"@;
    let l5 = ",\"upgrade_cost_growth_factor\":"@;
    let l6 = "}"@;
    let d1 = dec_digits(e.level as nat);
    let d2 = dec_digits(e.base_gold_per_second as nat);
    let d3 = dec_digits(e.base_upgrade_cost as nat);
    let d4 = dec_digits(e.upgrade_cost_factor_percent as nat);
    let p1 = i + l1.len();
    let p2 = p1 + e.name@.len();
    let p3 = p2 + l2.len();
    let p4 = p3 + d1.len();
    let p5 = p4 + l3.len();
    let p6 = p5 + d2.len();
    let p7 = p6 + l4.len();
    let p8 = p7 + d3.len();
    let p9 = p8 + l5.len();
    let p10 = p9 + d4.len();
    &&& text_at(s, i, l1)
    &&& text_at(s, p1, e.name@)
    &&& text_at(s, p2, l2)
    &&& text_at(s, p3, d1)
    &&& text_at(s, p4, l3)
    &&& text_at(s, p5, d2)
    &&& text_at(s, p6, l4)
    &&& text_at(s, p7, d3)
    &&& text_at(s, p8, l5)
    &&& text_at(s, p9, d4)
    &&& text_at(s, p10, l6)
    &&& p2 < s.len() && s[p2] == '"'
    &&& name_run_end(s, p1) == p2
    &&& valid_u64_at(s, p3) && digit_run_end(s, p3) == p4 && digits_value(s.subrange(p3, p4))
        == e.level
    &&& valid_u64_at(s, p5) && digit_run_end(s, p5) == p6 && digits_value(s.subrange(p5, p6))
        == e.base_gold_per_second
    &&& valid_u64_at(s, p7) && digit_run_end(s, p7) == p8 && digits_value(s.subrange(p7, p8))
        == e.base_upgrade_cost
    &&& valid_u64_at(s, p9) && digit_run_end(s, p9) == p10 && digits_value(s.subrange(p9, p10))
        == e.upgrade_cost_factor_percent
    &&& i + render_entity(e).len() == p10 + l6.len()
}

/// Where a number's writing stands followed by a non-digit, a valid
/// number stands: its run ends exactly after the writing and denotes it.
proof fn lemma_number_at(s: Seq<char>, p: int, n0: u64)
    requires
        text_at(s, p, dec_digits(n0 as nat)),
        p + dec_digits(n0 as nat).len() == s.len() || !is_digit(s[p + dec_digits(n0 as nat).len()]),
    ensures
        valid_u64_at(s, p),
        digit_run_end(s, p) == p + dec_digits(n0 as nat).len(),
        digits_value(s.subrange(p, p + dec_digits(n0 as nat).len())) == n0,
{
    let ds = dec_digits(n0 as nat);
    lemma_dec_digits_wf(n0 as nat);
    assert forall|k: int| p <= k < p + ds.len() implies is_digit(#[trigger] s[k]) by {
        assert(s.subrange(p, p + ds.len())[k - p] == s[k]);
    }
    lemma_digit_run_of(s, p, p + ds.len());
    lemma_dec_digits_value(n0 as nat);
    assert(s.subrange(p, p + ds.len())[0] == s[p]);
    if s[p] == '0' {
        assert(n0 == 0);
    }
}

/// The digit run a successful number read consumed is the canonical
/// writing of the value it returned.
proof fn lemma_parsed_number(s: Seq<char>, p: int, n: u64, j: int)
    requires
        valid_u64_at(s, p),
        j == digit_run_end(s, p),
        n == digits_value(s.subrange(p, j)),
    ensures
        text_at(s, p, dec_digits(n as nat)),
        j == p + dec_digits(n as nat).len(),
{
    crate::digits::lemma_digit_run_end_bounds(s, p + 1);
    assert(digit_run_end(s, p) == digit_run_end(s, p + 1));
    let ds = s.subrange(p, j);
    assert forall|k: int| 0 <= k < ds.len() implies is_digit(#[trigger] ds[k]) by {
        lemma_digit_run_digits(s, p, p + k);
    }
    assert(p < j);
    assert(ds[0] == s[p]);
    lemma_digits_canonical(ds);
}

/// The writing of an entity stands at `i` exactly when its pieces stand
/// in a row there; and then everything the reader relies on holds.
proof fn lemma_entity_facts(s: Seq<char>, i: int, e: IdleEntity)
    requires
        valid_name(e.name@),
    ensures
        text_at(s, i, render_entity(e)) <==> entity_parse_facts(s, i, e),
{
    reveal_strlit("{\"name\":\"");
    reveal_strlit("\",\"level\":");
    reveal_strlit(",\"base_production_rate\":");
    reveal_strlit(",\"base_upgrade_cost\":");
    reveal_strlit(",\"upgrade_cost_growth_factor\":");
    reveal_strlit("}");
    let l1 = "{\"name\":\""@;
    let l2 = "\",\"level\":"@;
    let l3 = ",\"base_production_rate\":"@;
    let l4 = ",\"base_upgrade_cost\":"@;
    let l5 = ",\"upgrade_cost_growth_factor\":"@;
    let l6 = "}"@;
    let nm = e.name@;
    let d1 = dec_digits(e.level as nat);
    let d2 = dec_digits(e.base_gold_per_second as nat);
    let d3 = dec_digits(e.base_upgrade_cost as nat);
    let d4 = dec_digits(e.upgrade_cost_factor_percent as nat);
    let a1 = l1 + nm;
    let a2 = a1 + l2;
    let a3 = a2 + d1;
    let a4 = a3 + l3;
    let a5 = a4 + d2;
    let a6 = a5 + l4;
    let a7 = a6 + d3;
    let a8 = a7 + l5;
    let a9 = a8 + d4;
    assert(render_entity(e) == a9 + l6);
    if text_at(s, i, render_entity(e)) {
        lemma_text_at_concat(s, i, a9, l6);
        lemma_text_at_concat(s, i, a8, d4);
        lemma_text_at_concat(s, i, a7, l5);
        lemma_text_at_concat(s, i, a6, d3);
        lemma_text_at_concat(s, i, a5, l4);
        lemma_text_at_concat(s, i, a4, d2);
        lemma_text_at_concat(s, i, a3, l3);
        lemma_text_at_concat(s, i, a2, d1);
        lemma_text_at_concat(s, i, a1, l2);
        lemma_text_at_concat(s, i, l1, nm);
        let p1 = i + l1.len();
        let p2 = p1 + nm.len();
        let p3 = p2 + l2.len();
        let p4 = p3 + d1.len();
        let p5 = p4 + l3.len();
        let p6 = p5 + d2.len();
        let p7 = p6 + l4.len();
        let p8 = p7 + d3.len();
        let p9 = p8 + l5.len();
        let p10 = p9 + d4.len();
        // boundary characters, read off the literal that follows each run
        assert(s.subrange(p2, p2 + l2.len())[0] == s[p2]);
        assert(s[p2] == '"');
        assert(s.subrange(p4, p4 + l3.len())[0] == s[p4]);
        assert(s[p4] == ',');
        assert(s.subrange(p6, p6 + l4.len())[0] == s[p6]);
        assert(s[p6] == ',');
        assert(s.subrange(p8, p8 + l5.len())[0] == s[p8]);
        assert(s[p8] == ',');
        assert(s.subrange(p10, p10 + l6.len())[0] == s[p10]);
        assert(s[p10] == '}');
        // the name run ends exactly at the closing quote
        assert forall|k: int| p1 <= k < p2 implies valid_name_char(#[trigger] s[k]) by {
            assert(s.subrange(p1, p2)[k - p1] == s[k]);
        }
        assert(!valid_name_char('"'));
        lemma_name_run_of(s, p1, p2);
        // the number runs end exactly before the following literal
        assert(!is_digit(','));
        assert(!is_digit('}'));
        lemma_number_at(s, p3, e.level as u64);
        lemma_number_at(s, p5, e.base_gold_per_second);
        lemma_number_at(s, p7, e.base_upgrade_cost);
        lemma_number_at(s, p9, e.upgrade_cost_factor_percent);
    }
    if entity_parse_facts(s, i, e) {
        lemma_text_at_concat(s, i, l1, nm);
        lemma_text_at_concat(s, i, a1, l2);
        lemma_text_at_concat(s, i, a2, d1);
        lemma_text_at_concat(s, i, a3, l3);
        lemma_text_at_concat(s, i, a4, d2);
        lemma_text_at_concat(s, i, a5, l4);
        lemma_text_at_concat(s, i, a6, d3);
        lemma_text_at_concat(s, i, a7, l5);
        lemma_text_at_concat(s, i, a8, d4);
        lemma_text_at_concat(s, i, a9, l6);
    }
}

/// Reads one entity at position `i`: `Some` exactly where the canonical
/// writing of a well-formed entity stands, and then that entity.
fn parse_entity(s: &str, i: usize) -> (r: Option<(IdleEntity, usize)>)
    requires
        i <= s@.len(),
    ensures
        r matches Some((e, j)) ==> {
            &&& i <= j <= s@.len()
            &&& e.wf()
            &&& j == i + render_entity(e).len()
            &&& text_at(s@, i as int, render_entity(e))
        },
        forall|e0: IdleEntity| (e0.wf() && #[trigger] text_at(s@, i as int, render_entity(e0)))
            ==> (r matches Some((e, j)) && entity_equiv(e, e0)),
{
    let j1 = match expect_lit(s, i, "{\"name\":\"") {
        Some(j) => j,
        None => {
            proof {
                assert forall|e0: IdleEntity| !(e0.wf() && #[trigger] text_at(
                    s@,
                    i as int,
                    render_entity(e0),
                )) by {
                    if e0.wf() && text_at(s@, i as int, render_entity(e0)) {
                        lemma_entity_facts(s@, i as int, e0);
                    }
                }
            }
            return None;
        },
    };
    let (name, j2) = match parse_name(s, j1) {
        Some(v) => v,
        None => {
            proof {
                assert forall|e0: IdleEntity| !(e0.wf() && #[trigger] text_at(
                    s@,
                    i as int,
                    render_entity(e0),
                )) by {
                    if e0.wf() && text_at(s@, i as int, render_entity(e0)) {
                        lemma_entity_facts(s@, i as int, e0);
                    }
                }
            }
            return None;
        },
    };
    let j3 = match expect_lit(s, j2, "\",\"level\":") {
        Some(j) => j,
        None => {
            proof {
                assert forall|e0: IdleEntity| !(e0.wf() && #[trigger] text_at(
                    s@,
                    i as int,
                    render_entity(e0),
                )) by {
                    if e0.wf() && text_at(s@, i as int, render_entity(e0)) {
                        lemma_entity_facts(s@, i as int, e0);
                    }
                }
            }
            return None;
        },
    };
    let (level64, j4) = match parse_u64(s, j3) {
        Some(v) => v,
        None => {
            proof {
                assert forall|e0: IdleEntity| !(e0.wf() && #[trigger] text_at(
                    s@,
                    i as int,
                    render_entity(e0),
                )) by {
                    if e0.wf() && text_at(s@, i as int, render_entity(e0)) {
                        lemma_entity_facts(s@, i as int, e0);
                    }
                }
            }
            return None;
        },
    };
    if level64 > u32::MAX as u64 {
        proof {
            assert forall|e0: IdleEntity| !(e0.wf() && #[trigger] text_at(
                s@,
                i as int,
                render_entity(e0),
            )) by {
                if e0.wf() && text_at(s@, i as int, render_entity(e0)) {
                    lemma_entity_facts(s@, i as int, e0);
                }
            }
        }
        return None;
    }
    let j5 = match expect_lit(s, j4, ",\"base_production_rate\":") {
        Some(j) => j,
        None => {
            proof {
                assert forall|e0: IdleEntity| !(e0.wf() && #[trigger] text_at(
                    s@,
                    i as int,
                    render_entity(e0),
                )) by {
                    if e0.wf() && text_at(s@, i as int, render_entity(e0)) {
                        lemma_entity_facts(s@, i as int, e0);
                    }
                }
            }
            return None;
        },
    };
    let (rate, j6) = match parse_u64(s, j5) {
        Some(v) => v,
        None => {
            proof {
                assert forall|e0: IdleEntity| !(e0.wf() && #[trigger] text_at(
                    s@,
                    i as int,
                    render_entity(e0),
                )) by {
                    if e0.wf() && text_at(s@, i as int, render_entity(e0)) {
                        lemma_entity_facts(s@, i as int, e0);
                    }
                }
            }
            return None;
        },
    };
    if rate < 1 || rate > u32::MAX as u64 {
        proof {
            assert forall|e0: IdleEntity| !(e0.wf() && #[trigger] text_at(
                s@,
                i as int,
                render_entity(e0),
            )) by {
                if e0.wf() && text_at(s@, i as int, render_entity(e0)) {
                    lemma_entity_facts(s@, i as int, e0);
                }
            }
        }
        return None;
    }
    let j7 = match expect_lit(s, j6, ",\"base_upgrade_cost\":") {
        Some(j) => j,
        None => {
            proof {
                assert forall|e0: IdleEntity| !(e0.wf() && #[trigger] text_at(
                    s@,
                    i as int,
                    render_entity(e0),
                )) by {
                    if e0.wf() && text_at(s@, i as int, render_entity(e0)) {
                        lemma_entity_facts(s@, i as int, e0);
                    }
                }
            }
            return None;
        },
    };
    let (cost, j8) = match parse_u64(s, j7) {
        Some(v) => v,
        None => {
            proof {
                assert forall|e0: IdleEntity| !(e0.wf() && #[trigger] text_at(
                    s@,
                    i as int,
                    render_entity(e0),
                )) by {
                    if e0.wf() && text_at(s@, i as int, render_entity(e0)) {
                        lemma_entity_facts(s@, i as int, e0);
                    }
                }
            }
            return None;
        },
    };
    if cost < 1 {
        proof {
            assert forall|e0: IdleEntity| !(e0.wf() && #[trigger] text_at(
                s@,
                i as int,
                render_entity(e0),
            )) by {
                if e0.wf() && text_at(s@, i as int, render_entity(e0)) {
                    lemma_entity_facts(s@, i as int, e0);
                }
            }
        }
        return None;
    }
    let j9 = match expect_lit(s, j8, ",\"upgrade_cost_growth_factor\":") {
        Some(j) => j,
        None => {
            proof {
                assert forall|e0: IdleEntity| !(e0.wf() && #[trigger] text_at(
                    s@,
                    i as int,
                    render_entity(e0),
                )) by {
                    if e0.wf() && text_at(s@, i as int, render_entity(e0)) {
                        lemma_entity_facts(s@, i as int, e0);
                    }
                }
            }
            return None;
        },
    };
    let (percent, j10) = match parse_u64(s, j9) {
        Some(v) => v,
        None => {
            proof {
                assert forall|e0: IdleEntity| !(e0.wf() && #[trigger] text_at(
                    s@,
                    i as int,
                    render_entity(e0),
                )) by {
                    if e0.wf() && text_at(s@, i as int, render_entity(e0)) {
                        lemma_entity_facts(s@, i as int, e0);
                    }
                }
            }
            return None;
        },
    };
    if percent < 101 {
        proof {
            assert forall|e0: IdleEntity| !(e0.wf() && #[trigger] text_at(
                s@,
                i as int,
                render_entity(e0),
            )) by {
                if e0.wf() && text_at(s@, i as int, render_entity(e0)) {
                    lemma_entity_facts(s@, i as int, e0);
                }
            }
        }
        return None;
    }
    let j11 = match expect_lit(s, j10, "}") {
        Some(j) => j,
        None => {
            proof {
                assert forall|e0: IdleEntity| !(e0.wf() && #[trigger] text_at(
                    s@,
                    i as int,
                    render_entity(e0),
                )) by {
                    if e0.wf() && text_at(s@, i as int, render_entity(e0)) {
                        lemma_entity_facts(s@, i as int, e0);
                    }
                }
            }
            return None;
        },
    };
    let e = IdleEntity {
        name,
        level: level64 as u32,
        base_gold_per_second: rate,
        base_upgrade_cost: cost,
        upgrade_cost_factor_percent: percent,
    };
    proof {
        lemma_parsed_number(s@, j3 as int, level64, j4 as int);
        lemma_parsed_number(s@, j5 as int, rate, j6 as int);
        lemma_parsed_number(s@, j7 as int, cost, j8 as int);
        lemma_parsed_number(s@, j9 as int, percent, j10 as int);
        assert(entity_parse_facts(s@, i as int, e));
        lemma_entity_facts(s@, i as int, e);
        assert forall|e0: IdleEntity| (e0.wf() && #[trigger] text_at(
            s@,
            i as int,
            render_entity(e0),
        )) implies entity_equiv(e, e0) by {
            lemma_entity_facts(s@, i as int, e0);
        }
    }
    Some((e, j11))
}

/// The pieces of a written roster standing in a row at position `i`:
/// seven entity writings separated by commas.
pub open spec fn roster_pieces_at(s: Seq<char>, i: int, es: Seq<IdleEntity>) -> bool {
    let c = ","@;
    let t0 = i;
    let u0 = t0 + render_entity(es[0]).len();
    let t1 = u0 + c.len();
    let u1 = t1 + render_entity(es[1]).len();
    let t2 = u1 + c.len();
    let u2 = t2 + render_entity(es[2]).len();
    let t3 = u2 + c.len();
    let u3 = t3 + render_entity(es[3]).len();
    let t4 = u3 + c.len();
    let u4 = t4 + render_entity(es[4]).len();
    let t5 = u4 + c.len();
    let u5 = t5 + render_entity(es[5]).len();
    let t6 = u5 + c.len();
    let u6 = t6 + render_entity(es[6]).len();
    &&& text_at(s, t0, render_entity(es[0]))
    &&& text_at(s, u0, c)
    &&& text_at(s, t1, render_entity(es[1]))
    &&& text_at(s, u1, c)
    &&& text_at(s, t2, render_entity(es[2]))
    &&& text_at(s, u2, c)
    &&& text_at(s, t3, render_entity(es[3]))
    &&& text_at(s, u3, c)
    &&& text_at(s, t4, render_entity(es[4]))
    &&& text_at(s, u4, c)
    &&& text_at(s, t5, render_entity(es[5]))
    &&& text_at(s, u5, c)
    &&& text_at(s, t6, render_entity(es[6]))
    &&& i + render_entities(es).len() == u6
}

/// The writing of a roster stands at `i` exactly when its pieces stand
/// in a row there.
#[verifier::rlimit(100)]
proof fn lemma_roster_pieces(s: Seq<char>, i: int, es: Seq<IdleEntity>)
    ensures
        text_at(s, i, render_entities(es)) <==> roster_pieces_at(s, i, es),
{
    let c = ","@;
    let a0 = render_entity(es[0]);
    let a1 = a0 + c;
    let a2 = a1 + render_entity(es[1]);
    let a3 = a2 + c;
    let a4 = a3 + render_entity(es[2]);
    let a5 = a4 + c;
    let a6 = a5 + render_entity(es[3]);
    let a7 = a6 + c;
    let a8 = a7 + render_entity(es[4]);
    let a9 = a8 + c;
    let a10 = a9 + render_entity(es[5]);
    let a11 = a10 + c;
    assert(render_entities(es) == a11 + render_entity(es[6]));
    if text_at(s, i, render_entities(es)) {
        lemma_text_at_concat(s, i, a11, render_entity(es[6]));
        lemma_text_at_concat(s, i, a10, c);
        lemma_text_at_concat(s, i, a9, render_entity(es[5]));
        lemma_text_at_concat(s, i, a8, c);
        lemma_text_at_concat(s, i, a7, render_entity(es[4]));
        lemma_text_at_concat(s, i, a6, c);
        lemma_text_at_concat(s, i, a5, render_entity(es[3]));
        lemma_text_at_concat(s, i, a4, c);
        lemma_text_at_concat(s, i, a3, render_entity(es[2]));
        lemma_text_at_concat(s, i, a2, c);
        lemma_text_at_concat(s, i, a1, render_entity(es[1]));
        lemma_text_at_concat(s, i, a0, c);
    }
    if roster_pieces_at(s, i, es) {
        lemma_text_at_concat(s, i, a0, c);
        lemma_text_at_concat(s, i, a1, render_entity(es[1]));
        lemma_text_at_concat(s, i, a2, c);
        lemma_text_at_concat(s, i, a3, render_entity(es[2]));
        lemma_text_at_concat(s, i, a4, c);
        lemma_text_at_concat(s, i, a5, render_entity(es[3]));
        lemma_text_at_concat(s, i, a6, c);
        lemma_text_at_concat(s, i, a7, render_entity(es[4]));
        lemma_text_at_concat(s, i, a8, c);
        lemma_text_at_concat(s, i, a9, render_entity(es[5]));
        lemma_text_at_concat(s, i, a10, c);
        lemma_text_at_concat(s, i, a11, render_entity(es[6]));
    }
}

/// A full roster of well-formed entities whose writing stands at `i`.
pub open spec fn roster_hyp(s: Seq<char>, i: int, es: Seq<IdleEntity>) -> bool {
    &&& es.len() == 7
    &&& forall|k: int| 0 <= k < 7 ==> (#[trigger] es[k]).wf()
    &&& text_at(s, i, render_entities(es))
}

/// Reads the seven comma-separated entities of a roster at position `i`:
/// `Some` exactly where the canonical writing of a full well-formed
/// roster stands, and then that roster.
#[verifier::rlimit(100)]
fn parse_roster(s: &str, i: usize) -> (r: Option<(Vec<IdleEntity>, usize)>)
    requires
        i <= s@.len(),
    ensures
        r matches Some((v, j)) ==> {
            &&& v@.len() == 7
            &&& forall|k: int| 0 <= k < 7 ==> (#[trigger] v@[k]).wf()
            &&& i <= j <= s@.len()
            &&& j == i + render_entities(v@).len()
            &&& text_at(s@, i as int, render_entities(v@))
        },
        forall|es: Seq<IdleEntity>| #[trigger] roster_hyp(s@, i as int, es) ==> (r matches Some(
            (v, j),
        ) && forall|k: int| 0 <= k < 7 ==> entity_equiv(#[trigger] v@[k], es[k])),
{
    let (e0, k0) = match parse_entity(s, i) {
        Some(v) => v,
        None => {
            proof {
                assert forall|es: Seq<IdleEntity>| !roster_hyp(s@, i as int, es) by {
                    if roster_hyp(s@, i as int, es) {
                        lemma_roster_pieces(s@, i as int, es);
                    }
                }
            }
            return None;
        },
    };
    let m1 = match expect_lit(s, k0, ",") {
        Some(j) => j,
        None => {
            proof {
                assert forall|es: Seq<IdleEntity>| !roster_hyp(s@, i as int, es) by {
                    if roster_hyp(s@, i as int, es) {
                        lemma_roster_pieces(s@, i as int, es);
                    }
                }
            }
            return None;
        },
    };
    let (e1, k1) = match parse_entity(s, m1) {
        Some(v) => v,
        None => {
            proof {
                assert forall|es: Seq<IdleEntity>| !roster_hyp(s@, i as int, es) by {
                    if roster_hyp(s@, i as int, es) {
                        lemma_roster_pieces(s@, i as int, es);
                    }
                }
            }
            return None;
        },
    };
    let m2 = match expect_lit(s, k1, ",") {
        Some(j) => j,
        None => {
            proof {
                assert forall|es: Seq<IdleEntity>| !roster_hyp(s@, i as int, es) by {
                    if roster_hyp(s@, i as int, es) {
                        lemma_roster_pieces(s@, i as int, es);
                    }
                }
            }
            return None;
        },
    };
    let (e2, k2) = match parse_entity(s, m2) {
        Some(v) => v,
        None => {
            proof {
                assert forall|es: Seq<IdleEntity>| !roster_hyp(s@, i as int, es) by {
                    if roster_hyp(s@, i as int, es) {
                        lemma_roster_pieces(s@, i as int, es);
                    }
                }
            }
            return None;
        },
    };
    let m3 = match expect_lit(s, k2, ",") {
        Some(j) => j,
        None => {
            proof {
                assert forall|es: Seq<IdleEntity>| !roster_hyp(s@, i as int, es) by {
                    if roster_hyp(s@, i as int, es) {
                        lemma_roster_pieces(s@, i as int, es);
                    }
                }
            }
            return None;
        },
    };
    let (e3, k3) = match parse_entity(s, m3) {
        Some(v) => v,
        None => {
            proof {
                assert forall|es: Seq<IdleEntity>| !roster_hyp(s@, i as int, es) by {
                    if roster_hyp(s@, i as int, es) {
                        lemma_roster_pieces(s@, i as int, es);
                    }
                }
            }
            return None;
        },
    };
    let m4 = match expect_lit(s, k3, ",") {
        Some(j) => j,
        None => {
            proof {
                assert forall|es: Seq<IdleEntity>| !roster_hyp(s@, i as int, es) by {
                    if roster_hyp(s@, i as int, es) {
                        lemma_roster_pieces(s@, i as int, es);
                    }
                }
            }
            return None;
        },
    };
    let (e4, k4) = match parse_entity(s, m4) {
        Some(v) => v,
        None => {
            proof {
                assert forall|es: Seq<IdleEntity>| !roster_hyp(s@, i as int, es) by {
                    if roster_hyp(s@, i as int, es) {
                        lemma_roster_pieces(s@, i as int, es);
                    }
                }
            }
            return None;
        },
    };
    let m5 = match expect_lit(s, k4, ",") {
        Some(j) => j,
        None => {
            proof {
                assert forall|es: Seq<IdleEntity>| !roster_hyp(s@, i as int, es) by {
                    if roster_hyp(s@, i as int, es) {
                        lemma_roster_pieces(s@, i as int, es);
                    }
                }
            }
            return None;
        },
    };
    let (e5, k5) = match parse_entity(s, m5) {
        Some(v) => v,
        None => {
            proof {
                assert forall|es: Seq<IdleEntity>| !roster_hyp(s@, i as int, es) by {
                    if roster_hyp(s@, i as int, es) {
                        lemma_roster_pieces(s@, i as int, es);
                    }
                }
            }
            return None;
        },
    };
    let m6 = match expect_lit(s, k5, ",") {
        Some(j) => j,
        None => {
            proof {
                assert forall|es: Seq<IdleEntity>| !roster_hyp(s@, i as int, es) by {
                    if roster_hyp(s@, i as int, es) {
                        lemma_roster_pieces(s@, i as int, es);
                    }
                }
            }
            return None;
        },
    };
    let (e6, k6) = match parse_entity(s, m6) {
        Some(v) => v,
        None => {
            proof {
                assert forall|es: Seq<IdleEntity>| !roster_hyp(s@, i as int, es) by {
                    if roster_hyp(s@, i as int, es) {
                        lemma_roster_pieces(s@, i as int, es);
                    }
                }
            }
            return None;
        },
    };
    let mut v: Vec<IdleEntity> = Vec::new();
    v.push(e0);
    v.push(e1);
    v.push(e2);
    v.push(e3);
    v.push(e4);
    v.push(e5);
    v.push(e6);
    proof {
        assert(roster_pieces_at(s@, i as int, v@));
        lemma_roster_pieces(s@, i as int, v@);
        assert forall|es: Seq<IdleEntity>| #[trigger] roster_hyp(s@, i as int, es) implies forall|
            k: int,
        | 0 <= k < 7 ==> entity_equiv(#[trigger] v@[k], es[k]) by {
            lemma_roster_pieces(s@, i as int, es);
            assert(entity_equiv(e0, es[0]));
            assert(entity_equiv(e1, es[1]));
            assert(entity_equiv(e2, es[2]));
            assert(entity_equiv(e3, es[3]));
            assert(entity_equiv(e4, es[4]));
            assert(entity_equiv(e5, es[5]));
            assert(entity_equiv(e6, es[6]));
            assert forall|k: int| 0 <= k < 7 implies entity_equiv(
                #[trigger] v@[k],
                es[k],
            ) by {
                if k == 0 {
                } else if k == 1 {
                } else if k == 2 {
                } else if k == 3 {
                } else if k == 4 {
                } else if k == 5 {
                } else {
                    assert(k == 6);
                }
            }
        }
    }
    Some((v, k6))
}

/// The text `s` is the canonical save of the game `g`: the form
/// `save_game` writes and `parse_game` reads.
pub open spec fn valid_save_of(s: Seq<char>, g: Game) -> bool {
    &&& g.wf()
    &&& g.current_delta_time_ms == 0
    &&& s == render_game(g)
}

/// Everything the reader relies on about the writing of a game's header
/// at position `i`: where each piece stands, and the run ends and values
/// of the three number runs.
pub open spec fn header_facts(s: Seq<char>, i: int, init: u64, last: u64, gold: u64) -> bool {
    let g1 = "{\"init_timestamp\":"@;
    let g2 = ",\"last_update_timestamp\":"@;
    let g3 = ",\"currency\":"@;
    let g4 = ",\"entities\":["@;
    let d1 = dec_digits(init as nat);
    let d2 = dec_digits(last as nat);
    let d3 = dec_digits(gold as nat);
    let q1 = i + g1.len();
    let q2 = q1 + d1.len();
    let q3 = q2 + g2.len();
    let q4 = q3 + d2.len();
    let q5 = q4 + g3.len();
    let q6 = q5 + d3.len();
    &&& text_at(s, i, g1)
    &&& text_at(s, q1, d1)
    &&& valid_u64_at(s, q1) && digit_run_end(s, q1) == q2 && digits_value(s.subrange(q1, q2))
        == init
    &&& text_at(s, q2, g2)
    &&& text_at(s, q3, d2)
    &&& valid_u64_at(s, q3) && digit_run_end(s, q3) == q4 && digits_value(s.subrange(q3, q4))
        == last
    &&& text_at(s, q4, g3)
    &&& text_at(s, q5, d3)
    &&& valid_u64_at(s, q5) && digit_run_end(s, q5) == q6 && digits_value(s.subrange(q5, q6))
        == gold
    &&& text_at(s, q6, g4)
    &&& i + game_header(init, last, gold).len() == q6 + g4.len()
}

/// The writing of a header stands at `i` exactly when its pieces stand
/// in a row there.
#[verifier::rlimit(100)]
proof fn lemma_header_facts(s: Seq<char>, i: int, init: u64, last: u64, gold: u64)
    ensures
        text_at(s, i, game_header(init, last, gold)) <==> header_facts(s, i, init, last, gold),
{
    reveal_strlit("{\"init_timestamp\":");
    reveal_strlit(",\"last_update_timestamp\":");
    reveal_strlit(",\"currency\":");
    reveal_strlit(",\"entities\":[");
    let g1 = "{\"init_timestamp\":"@;
    let g2 = ",\"last_update_timestamp\":"@;
    let g3 = ",\"currency\":"@;
    let g4 = ",\"entities\":["@;
    let d1 = dec_digits(init as nat);
    let d2 = dec_digits(last as nat);
    let d3 = dec_digits(gold as nat);
    let b1 = g1 + d1;
    let b2 = b1 + g2;
    let b3 = b2 + d2;
    let b4 = b3 + g3;
    let b5 = b4 + d3;
    assert(game_header(init, last, gold) == b5 + g4);
    if text_at(s, i, game_header(init, last, gold)) {
        lemma_text_at_concat(s, i, b5, g4);
        lemma_text_at_concat(s, i, b4, d3);
        lemma_text_at_concat(s, i, b3, g3);
        lemma_text_at_concat(s, i, b2, d2);
        lemma_text_at_concat(s, i, b1, g2);
        lemma_text_at_concat(s, i, g1, d1);
        let q1 = i + g1.len();
        let q2 = q1 + d1.len();
        let q3 = q2 + g2.len();
        let q4 = q3 + d2.len();
        let q5 = q4 + g3.len();
        let q6 = q5 + d3.len();
        assert(s.subrange(q2, q2 + g2.len())[0] == s[q2]);
        assert(s.subrange(q4, q4 + g3.len())[0] == s[q4]);
        assert(s.subrange(q6, q6 + g4.len())[0] == s[q6]);
        assert(s[q2] == ',' && s[q4] == ',' && s[q6] == ',');
        assert(!is_digit(','));
        lemma_number_at(s, q1, init);
        lemma_number_at(s, q3, last);
        lemma_number_at(s, q5, gold);
    }
    if header_facts(s, i, init, last, gold) {
        lemma_text_at_concat(s, i, g1, d1);
        lemma_text_at_concat(s, i, b1, g2);
        lemma_text_at_concat(s, i, b2, d2);
        lemma_text_at_concat(s, i, b3, g3);
        lemma_text_at_concat(s, i, b4, d3);
        lemma_text_at_concat(s, i, b5, g4);
    }
}

/// Reads a game's scalar header at position `i`: `Some` exactly where a
/// canonical header stands, and then its three numbers.
#[verifier::rlimit(100)]
fn parse_game_header(s: &str, i: usize) -> (r: Option<(u64, u64, u64, usize)>)
    requires
        i <= s@.len(),
    ensures
        r matches Some((init, last, gold, j)) ==> {
            &&& i <= j <= s@.len()
            &&& j == i + game_header(init, last, gold).len()
            &&& text_at(s@, i as int, game_header(init, last, gold))
        },
        forall|a: u64, b: u64, cc: u64| #[trigger] text_at(s@, i as int, game_header(a, b, cc))
            ==> (r matches Some((init, last, gold, j)) && init == a && last == b && gold == cc),
{
    let j1 = match expect_lit(s, i, "{\"init_timestamp\":") {
        Some(j) => j,
        None => {
            proof {
                assert forall|a: u64, b: u64, cc: u64| !text_at(
                    s@,
                    i as int,
                    game_header(a, b, cc),
                ) by {
                    if text_at(s@, i as int, game_header(a, b, cc)) {
                        lemma_header_facts(s@, i as int, a, b, cc);
                    }
                }
            }
            return None;
        },
    };

    let (init, j2) = match parse_u64(s, j1) {
        Some(v) => v,
        None => {
            proof {
                assert forall|a: u64, b: u64, cc: u64| !text_at(
                    s@,
                    i as int,
                    game_header(a, b, cc),
                ) by {
                    if text_at(s@, i as int, game_header(a, b, cc)) {
                        lemma_header_facts(s@, i as int, a, b, cc);
                    }
                }
            }
            return None;
        },
    };

    let j3 = match expect_lit(s, j2, ",\"last_update_timestamp\":") {
        Some(j) => j,
        None => {
            proof {
                assert forall|a: u64, b: u64, cc: u64| !text_at(
                    s@,
                    i as int,
                    game_header(a, b, cc),
                ) by {
                    if text_at(s@, i as int, game_header(a, b, cc)) {
                        lemma_header_facts(s@, i as int, a, b, cc);
                    }
                }
            }
            return None;
        },
    };

    let (last, j4) = match parse_u64(s, j3) {
        Some(v) => v,
        None => {
            proof {
                assert forall|a: u64, b: u64, cc: u64| !text_at(
                    s@,
                    i as int,
                    game_header(a, b, cc),
                ) by {
                    if text_at(s@, i as int, game_header(a, b, cc)) {
                        lemma_header_facts(s@, i as int, a, b, cc);
                    }
                }
            }
            return None;
        },
    };

    let j5 = match expect_lit(s, j4, ",\"currency\":") {
        Some(j) => j,
        None => {
            proof {
                assert forall|a: u64, b: u64, cc: u64| !text_at(
                    s@,
                    i as int,
                    game_header(a, b, cc),
                ) by {
                    if text_at(s@, i as int, game_header(a, b, cc)) {
                        lemma_header_facts(s@, i as int, a, b, cc);
                    }
                }
            }
            return None;
        },
    };

    let (gold, j6) = match parse_u64(s, j5) {
        Some(v) => v,
        None => {
            proof {
                assert forall|a: u64, b: u64, cc: u64| !text_at(
                    s@,
                    i as int,
                    game_header(a, b, cc),
                ) by {
                    if text_at(s@, i as int, game_header(a, b, cc)) {
                        lemma_header_facts(s@, i as int, a, b, cc);
                    }
                }
            }
            return None;
        },
    };

    let j7 = match expect_lit(s, j6, ",\"entities\":[") {
        Some(j) => j,
        None => {
            proof {
                assert forall|a: u64, b: u64, cc: u64| !text_at(
                    s@,
                    i as int,
                    game_header(a, b, cc),
                ) by {
                    if text_at(s@, i as int, game_header(a, b, cc)) {
                        lemma_header_facts(s@, i as int, a, b, cc);
                    }
                }
            }
            return None;
        },
    };

    proof {
        lemma_parsed_number(s@, j1 as int, init, j2 as int);
        lemma_parsed_number(s@, j3 as int, last, j4 as int);
        lemma_parsed_number(s@, j5 as int, gold, j6 as int);
        assert(header_facts(s@, i as int, init, last, gold));
        lemma_header_facts(s@, i as int, init, last, gold);
        assert forall|a: u64, b: u64, cc: u64| #[trigger] text_at(
            s@,
            i as int,
            game_header(a, b, cc),
        ) implies init == a && last == b && gold == cc by {
            lemma_header_facts(s@, i as int, a, b, cc);
        }
    }
    Some((init, last, gold, j7))
}

/// Everything the reader relies on about the writing of a whole game at
/// position `i`: the header, the roster, and the closing bracket in a
/// row.
pub open spec fn game_parse_facts(s: Seq<char>, i: int, g: Game) -> bool {
    let hdr = game_header(g.init_time_stamp_ms, g.last_time_stamp_ms, g.current_gold);
    let ee = render_entities(g.idle_entities@);
    let g5 = "]}"@;
    let q7 = i + hdr.len();
    let q8 = q7 + ee.len();
    &&& text_at(s, i, hdr)
    &&& text_at(s, q7, ee)
    &&& text_at(s, q8, g5)
    &&& i + render_game(g).len() == q8 + g5.len()
}

/// The writing of a game stands at `i` exactly when its three parts
/// stand in a row there.
proof fn lemma_game_facts(s: Seq<char>, i: int, g: Game)
    ensures
        text_at(s, i, render_game(g)) <==> game_parse_facts(s, i, g),
{
    let hdr = game_header(g.init_time_stamp_ms, g.last_time_stamp_ms, g.current_gold);
    let ee = render_entities(g.idle_entities@);
    let g5 = "]}"@;
    assert(render_game(g) == (hdr + ee) + g5);
    if text_at(s, i, render_game(g)) {
        lemma_text_at_concat(s, i, hdr + ee, g5);
        lemma_text_at_concat(s, i, hdr, ee);
    }
    if game_parse_facts(s, i, g) {
        lemma_text_at_concat(s, i, hdr, ee);
        lemma_text_at_concat(s, i, hdr + ee, g5);
    }
}

/// Reads a game from its canonical save text. `Ok` exactly where the
/// text is the canonical writing of a well-formed game, and then the
/// result is that game, with the transient consumed interval reset to
/// zero. Anything else is malformed.
#[verifier::rlimit(100)]
pub fn parse_game(s: &str) -> (r: Result<Game, ParseError>)
    ensures
        r matches Ok(g) ==> valid_save_of(s@, g),
        forall|g0: Game| #[trigger] valid_save_of(s@, g0) ==> (r matches Ok(g) && game_equiv(
            g,
            g0,
        )),
{
    let slen = s.unicode_len();
    let (init, last, gold, j7) = match parse_game_header(s, 0) {
        Some(v) => v,
        None => {
            proof {
                assert forall|g0: Game| !valid_save_of(s@, g0) by {
                    if valid_save_of(s@, g0) {
                        assert(s@.subrange(0, render_game(g0).len() as int) =~= s@);
                        lemma_game_facts(s@, 0, g0);
                    }
                }
            }
            return Err(ParseError::Malformed);
        },
    };

    let (idle_entities, j8) = match parse_roster(s, j7) {
        Some(v) => v,
        None => {
            proof {
                assert forall|g0: Game| !valid_save_of(s@, g0) by {
                    if valid_save_of(s@, g0) {
                        assert(s@.subrange(0, render_game(g0).len() as int) =~= s@);
                        lemma_game_facts(s@, 0, g0);
                        assert(roster_hyp(s@, j7 as int, g0.idle_entities@));
                    }
                }
            }
            return Err(ParseError::Malformed);
        },
    };
    let jend = match expect_lit(s, j8, "]}") {
        Some(j) => j,
        None => {
            proof {
                assert forall|g0: Game| !valid_save_of(s@, g0) by {
                    if valid_save_of(s@, g0) {
                        assert(s@.subrange(0, render_game(g0).len() as int) =~= s@);
                        lemma_game_facts(s@, 0, g0);
                        assert(roster_hyp(s@, j7 as int, g0.idle_entities@));
                    }
                }
            }
            return Err(ParseError::Malformed);
        },
    };
    if jend != slen {
        proof {
            assert forall|g0: Game| !valid_save_of(s@, g0) by {
                if valid_save_of(s@, g0) {
                    assert(s@.subrange(0, render_game(g0).len() as int) =~= s@);
                    lemma_game_facts(s@, 0, g0);
                    assert(roster_hyp(s@, j7 as int, g0.idle_entities@));
                }
            }
        }
        return Err(ParseError::Malformed);
    }
    let g = Game {
        init_time_stamp_ms: init,
        last_time_stamp_ms: last,
        current_delta_time_ms: 0,
        current_gold: gold,
        idle_entities,
    };
    proof {
        assert(game_parse_facts(s@, 0, g));
        lemma_game_facts(s@, 0, g);
        assert(s@ =~= render_game(g));
        assert(g.wf());
        assert forall|g0: Game| #[trigger] valid_save_of(s@, g0) implies game_equiv(g, g0) by {
            assert(s@.subrange(0, render_game(g0).len() as int) =~= s@);
            lemma_game_facts(s@, 0, g0);
            assert(roster_hyp(s@, j7 as int, g0.idle_entities@));
        }
    }
    Ok(g)
}

/// Saving a game and loading the text back yields the same game, with
/// the transient consumed interval reset: the persisted form loses
/// nothing else.
pub fn save_load_round_trip(g: &Game) -> (r: Game)
    requires
        g.wf(),
    ensures
        r.wf(),
        game_equiv(r, (Game { current_delta_time_ms: 0, ..*g })),
{
    let text = save_game(g);
    let ghost w = Game { current_delta_time_ms: 0, ..*g };
    proof {
        assert(render_game(w) == render_game(*g));
        assert(valid_save_of(text@, w));
    }
    match parse_game(text.as_str()) {
        Ok(g2) => g2,
        Err(_) => {
            proof {
                assert(false);
            }
            vstd::pervasive::unreached()
        },
    }
}


/// Appends the canonical writing of one entity.
fn append_entity(out: &mut String, e: &IdleEntity)
    ensures
        final(out)@ == old(out)@ + render_entity(*e),
{
    out.append("{\"name\":\"");
    out.append(e.get_name());
    out.append("\",\"level\":");
    append_u64(out, e.get_level() as u64);
    out.append(",\"base_production_rate\":");
    append_u64(out, e.base_gold_per_second);
    out.append(",\"base_upgrade_cost\":");
    append_u64(out, e.base_upgrade_cost);
    out.append(",\"upgrade_cost_growth_factor\":");
    append_u64(out, e.upgrade_cost_factor_percent);
    out.append("}");
    proof {
        assert(out@ =~= old(out)@ + render_entity(*e));
    }
}

/// The canonical save text of a game.
#[verifier::rlimit(60)]
pub fn save_game(g: &Game) -> (r: String)
    requires
        g.idle_entities@.len() == ROSTER_SIZE,
    ensures
        r@ == render_game(*g),
{
    let mut out = String::new();
    out.append("{\"init_timestamp\":");
    append_u64(&mut out, g.init_time_stamp_ms);
    out.append(",\"last_update_timestamp\":");
    append_u64(&mut out, g.last_time_stamp_ms);
    out.append(",\"currency\":");
    append_u64(&mut out, g.current_gold);
    out.append(",\"entities\":[");
    append_entity(&mut out, &g.idle_entities[0]);
    out.append(",");
    append_entity(&mut out, &g.idle_entities[1]);
    out.append(",");
    append_entity(&mut out, &g.idle_entities[2]);
    out.append(",");
    append_entity(&mut out, &g.idle_entities[3]);
    out.append(",");
    append_entity(&mut out, &g.idle_entities[4]);
    out.append(",");
    append_entity(&mut out, &g.idle_entities[5]);
    out.append(",");
    append_entity(&mut out, &g.idle_entities[6]);
    out.append("]}");
    proof {
        assert(out@ =~= render_game(*g));
    }
    out
}

} // verus!
