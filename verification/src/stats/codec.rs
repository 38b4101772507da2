//! The persisted form of the stats store: a pretty-printed JSON document
//! of the shape
//! `{ "sessions": { name: { "scramble_type": .., "stats": [ .. ] } } }`,
//! with an emitter and a parser both verified against specification-level
//! functions, and a proof that loading undoes saving.

use vstd::prelude::*;

use crate::json::{
    is_ws, lemma_parse_lit_at, lemma_parse_string_at, lemma_parse_u64_at, p_lit, p_skip_ws,
    p_string, p_u64, parse_lit, parse_string, parse_u64, push_quoted, push_str_chars, quoted,
    skip_ws, suffix, ws_only,
};
use crate::solve_time::SolveTime;
use crate::stats::session::{Session, SessionV};
use crate::stats::stat::{Stat, StatV};
use crate::stats::stats::{Stats, StatsV};
use crate::text::{chars_vec, dec_str, u64_to_dec};

verus! {

// ------------------------------------------------------------------
// The emitted text.
// ------------------------------------------------------------------

/// The text of the `time` sub-object of a stat.
pub open spec fn json_time_obj(secs: u64, nanos: u32) -> Seq<char> {
    "{"@ + "\n            "@ + "\"secs\""@ + ":"@ + " "@ + dec_str(secs as int) + ","@
        + "\n            "@ + "\"nanos\""@ + ":"@ + " "@ + dec_str(nanos as int)
        + "\n          "@ + "}"@
}

/// The text of one string-valued stat field, comma first.
pub open spec fn json_str_field(key: Seq<char>, val: Seq<char>) -> Seq<char> {
    ","@ + "\n          "@ + key + ":"@ + " "@ + quoted(val)
}

/// The text of one stat object.
pub open spec fn json_of_stat(v: StatV) -> Seq<char> {
    "{"@ + "\n          "@ + "\"time\""@ + ":"@ + " "@ + json_time_obj(v.secs, v.nanos)
        + json_str_field("\"scramble\""@, v.scramble) + json_str_field("\"comment\""@, v.comment)
        + json_str_field("\"datetime\""@, v.datetime) + "\n        "@ + "}"@
}

/// The stat objects of a non-empty list, each on its own line, separated
/// by commas.
pub open spec fn json_of_items(ss: Seq<StatV>) -> Seq<char>
    decreases ss.len(),
{
    if ss.len() <= 1 {
        "\n        "@ + json_of_stat(ss[0])
    } else {
        json_of_items(ss.drop_last()) + ","@ + "\n        "@ + json_of_stat(ss.last())
    }
}

/// The text of a stat array.
pub open spec fn json_of_stat_list(ss: Seq<StatV>) -> Seq<char> {
    if ss.len() == 0 {
        "["@ + "]"@
    } else {
        "["@ + json_of_items(ss) + "\n      "@ + "]"@
    }
}

/// The text of one session object.
pub open spec fn json_of_session(v: SessionV) -> Seq<char> {
    "{"@ + "\n      "@ + "\"scramble_type\""@ + ":"@ + " "@ + quoted(v.scramble_type) + ","@
        + "\n      "@ + "\"stats\""@ + ":"@ + " "@ + json_of_stat_list(v.stats) + "\n    "@
        + "}"@
}

/// The text of one name/session entry.
pub open spec fn json_of_entry(name: Seq<char>, v: SessionV) -> Seq<char> {
    "\n    "@ + quoted(name) + ":"@ + " "@ + json_of_session(v)
}

/// The entries of a non-empty session map, separated by commas.
pub open spec fn json_of_entries(es: Seq<(Seq<char>, SessionV)>) -> Seq<char>
    decreases es.len(),
{
    if es.len() <= 1 {
        json_of_entry(es[0].0, es[0].1)
    } else {
        json_of_entries(es.drop_last()) + ","@ + json_of_entry(es.last().0, es.last().1)
    }
}

/// The whole persisted document.
pub open spec fn json_of_stats(m: StatsV) -> Seq<char> {
    "{"@ + "\n  "@ + "\"sessions\""@ + ":"@ + " "@ + "{"@ + (if m.sessions.len() == 0 {
        "}"@
    } else {
        json_of_entries(m.sessions) + "\n  "@ + "}"@
    }) + "\n"@ + "}"@
}

// ------------------------------------------------------------------
// The specification parser.
// ------------------------------------------------------------------

/// Feeds the rest of a previous step into a token parse.
pub open spec fn then_lit(o: Option<Seq<char>>, tok: Seq<char>) -> Option<Seq<char>> {
    match o {
        Some(s) => parse_lit(s, tok),
        None => None,
    }
}

/// Feeds the rest of a previous step into a string parse.
pub open spec fn then_string(o: Option<Seq<char>>) -> Option<(Seq<char>, Seq<char>)> {
    match o {
        Some(s) => parse_string(s),
        None => None,
    }
}

/// Feeds the rest of a previous step into a number parse.
pub open spec fn then_u64(o: Option<Seq<char>>) -> Option<(u64, Seq<char>)> {
    match o {
        Some(s) => parse_u64(s),
        None => None,
    }
}

/// The `time` sub-object: seconds and nanoseconds.
pub open spec fn parse_time_obj(s: Seq<char>) -> Option<((u64, u64), Seq<char>)> {
    let h = then_lit(then_lit(then_lit(Some(s), "{"@), "\"secs\""@), ":"@);
    match then_u64(h) {
        None => None,
        Some((secs, s1)) => {
            let h = then_lit(then_lit(then_lit(Some(s1), ","@), "\"nanos\""@), ":"@);
            match then_u64(h) {
                None => None,
                Some((nanos, s2)) => match parse_lit(s2, "}"@) {
                    None => None,
                    Some(s3) => Some(((secs, nanos), s3)),
                },
            }
        },
    }
}

/// One string-valued field introduced by a comma and the given key.
pub open spec fn parse_str_field(s: Seq<char>, key: Seq<char>) -> Option<(Seq<char>, Seq<char>)> {
    then_string(then_lit(then_lit(then_lit(Some(s), ","@), key), ":"@))
}

/// One stat object; the nanosecond field must stay below one second.
pub open spec fn parse_stat_v(s: Seq<char>) -> Option<(StatV, Seq<char>)> {
    let h = then_lit(then_lit(then_lit(Some(s), "{"@), "\"time\""@), ":"@);
    match h {
        None => None,
        Some(s1) => match parse_time_obj(s1) {
            None => None,
            Some(((secs, nanos), s2)) => {
                if nanos >= 1_000_000_000 {
                    None
                } else {
                    match parse_str_field(s2, "\"scramble\""@) {
                        None => None,
                        Some((scramble, s3)) => match parse_str_field(s3, "\"comment\""@) {
                            None => None,
                            Some((comment, s4)) => match parse_str_field(s4, "\"datetime\""@) {
                                None => None,
                                Some((datetime, s5)) => match parse_lit(s5, "}"@) {
                                    None => None,
                                    Some(s6) => Some(
                                        (
                                            StatV {
                                                secs,
                                                nanos: nanos as u32,
                                                scramble,
                                                comment,
                                                datetime,
                                            },
                                            s6,
                                        ),
                                    ),
                                },
                            },
                        },
                    }
                }
            },
        },
    }
}

/// One or more stat objects up to and including the closing bracket.
pub open spec fn parse_stat_items(s: Seq<char>) -> Option<(Seq<StatV>, Seq<char>)>
    decreases s.len(),
{
    match parse_stat_v(s) {
        None => None,
        Some((v, s1)) => match parse_lit(s1, ","@) {
            Some(s2) => if s2.len() < s.len() {
                match parse_stat_items(s2) {
                    Some(p) => Some((seq![v] + p.0, p.1)),
                    None => None,
                }
            } else {
                None
            },
            None => match parse_lit(s1, "]"@) {
                Some(s2) => Some((seq![v], s2)),
                None => None,
            },
        },
    }
}

/// A whole stat array.
pub open spec fn parse_stat_list(s: Seq<char>) -> Option<(Seq<StatV>, Seq<char>)> {
    match parse_lit(s, "["@) {
        None => None,
        Some(s1) => match parse_lit(s1, "]"@) {
            Some(s2) => Some((Seq::empty(), s2)),
            None => parse_stat_items(s1),
        },
    }
}

/// One session object.
pub open spec fn parse_session_v(s: Seq<char>) -> Option<(SessionV, Seq<char>)> {
    let h = then_lit(then_lit(then_lit(Some(s), "{"@), "\"scramble_type\""@), ":"@);
    match then_string(h) {
        None => None,
        Some((t, s1)) => {
            let h = then_lit(then_lit(then_lit(Some(s1), ","@), "\"stats\""@), ":"@);
            match h {
                None => None,
                Some(s2) => match parse_stat_list(s2) {
                    None => None,
                    Some((ss, s3)) => match parse_lit(s3, "}"@) {
                        None => None,
                        Some(s4) => Some((SessionV { scramble_type: t, stats: ss }, s4)),
                    },
                },
            }
        },
    }
}

/// The session entries up to and including the closing brace of the
/// session map; a name already seen makes the document malformed.
pub open spec fn parse_entries_v(s: Seq<char>, acc: Seq<(Seq<char>, SessionV)>) -> Option<
    (Seq<(Seq<char>, SessionV)>, Seq<char>),
>
    decreases s.len(),
{
    match parse_string(s) {
        None => None,
        Some((name, s1)) => {
            if exists|i: int| 0 <= i < acc.len() && (#[trigger] acc[i]).0 == name {
                None
            } else {
                match parse_lit(s1, ":"@) {
                    None => None,
                    Some(s2) => match parse_session_v(s2) {
                        None => None,
                        Some((sv, s3)) => {
                            let acc2 = acc.push((name, sv));
                            match parse_lit(s3, ","@) {
                                Some(s4) => if s4.len() < s.len() {
                                    parse_entries_v(s4, acc2)
                                } else {
                                    None
                                },
                                None => match parse_lit(s3, "}"@) {
                                    Some(s4) => Some((acc2, s4)),
                                    None => None,
                                },
                            }
                        },
                    },
                }
            }
        },
    }
}

/// The whole document; anything but trailing whitespace after the final
/// brace is malformed.
pub open spec fn parse_stats_text(s: Seq<char>) -> Option<StatsV> {
    let h = then_lit(
        then_lit(then_lit(then_lit(Some(s), "{"@), "\"sessions\""@), ":"@),
        "{"@,
    );
    match h {
        None => None,
        Some(s1) => match parse_lit(s1, "}"@) {
            Some(s2) => match parse_lit(s2, "}"@) {
                Some(s3) => if skip_ws(s3).len() == 0 {
                    Some(StatsV { sessions: Seq::empty() })
                } else {
                    None
                },
                None => None,
            },
            None => match parse_entries_v(s1, Seq::empty()) {
                None => None,
                Some((es, s2)) => match parse_lit(s2, "}"@) {
                    None => None,
                    Some(s3) => if skip_ws(s3).len() == 0 {
                        Some(StatsV { sessions: es })
                    } else {
                        None
                    },
                },
            },
        },
    }
}

// ------------------------------------------------------------------
// Parsing undoes emission.
// ------------------------------------------------------------------

/// The whitespace and token literals the format is built from.
proof fn lemma_layout_facts()
    ensures
        ws_only(" "@),
        ws_only("\n"@),
        ws_only("\n  "@),
        ws_only("\n    "@),
        ws_only("\n      "@),
        ws_only("\n        "@),
        ws_only("\n          "@),
        ws_only("\n            "@),
        ws_only(Seq::<char>::empty()),
        " "@.len() == 1,
        "\n"@.len() == 1,
        "\n  "@.len() == 3,
        "\n    "@.len() == 5,
        "\n      "@.len() == 7,
        "\n        "@.len() == 9,
        "\n          "@.len() == 11,
        "\n            "@.len() == 13,
        "{"@ =~= seq!['{'],
        "}"@ =~= seq!['}'],
        "["@ =~= seq!['['],
        "]"@ =~= seq![']'],
        ":"@ =~= seq![':'],
        ","@ =~= seq![','],
        "\"sessions\""@.len() == 10 && "\"sessions\""@[0] == '"',
        "\"scramble_type\""@.len() == 15 && "\"scramble_type\""@[0] == '"',
        "\"stats\""@.len() == 7 && "\"stats\""@[0] == '"',
        "\"time\""@.len() == 6 && "\"time\""@[0] == '"',
        "\"secs\""@.len() == 6 && "\"secs\""@[0] == '"',
        "\"nanos\""@.len() == 7 && "\"nanos\""@[0] == '"',
        "\"scramble\""@.len() == 10 && "\"scramble\""@[0] == '"',
        "\"comment\""@.len() == 9 && "\"comment\""@[0] == '"',
        "\"datetime\""@.len() == 10 && "\"datetime\""@[0] == '"',
{
    reveal_strlit(" ");
    reveal_strlit("\n");
    reveal_strlit("\n  ");
    reveal_strlit("\n    ");
    reveal_strlit("\n      ");
    reveal_strlit("\n        ");
    reveal_strlit("\n          ");
    reveal_strlit("\n            ");
    reveal_strlit("{");
    reveal_strlit("}");
    reveal_strlit("[");
    reveal_strlit("]");
    reveal_strlit(":");
    reveal_strlit(",");
    reveal_strlit("\"sessions\"");
    reveal_strlit("\"scramble_type\"");
    reveal_strlit("\"stats\"");
    reveal_strlit("\"time\"");
    reveal_strlit("\"secs\"");
    reveal_strlit("\"nanos\"");
    reveal_strlit("\"scramble\"");
    reveal_strlit("\"comment\"");
    reveal_strlit("\"datetime\"");
    assert forall|i: int| 0 <= i < " "@.len() implies is_ws(#[trigger] " "@[i]) by {}
    assert forall|i: int| 0 <= i < "\n"@.len() implies is_ws(#[trigger] "\n"@[i]) by {}
    assert forall|i: int| 0 <= i < "\n  "@.len() implies is_ws(#[trigger] "\n  "@[i]) by {}
    assert forall|i: int| 0 <= i < "\n    "@.len() implies is_ws(#[trigger] "\n    "@[i]) by {}
    assert forall|i: int| 0 <= i < "\n      "@.len() implies is_ws(
        #[trigger] "\n      "@[i],
    ) by {}
    assert forall|i: int| 0 <= i < "\n        "@.len() implies is_ws(
        #[trigger] "\n        "@[i],
    ) by {}
    assert forall|i: int| 0 <= i < "\n          "@.len() implies is_ws(
        #[trigger] "\n          "@[i],
    ) by {}
    assert forall|i: int| 0 <= i < "\n            "@.len() implies is_ws(
        #[trigger] "\n            "@[i],
    ) by {}
}

/// A token parse fails when the input, after whitespace, starts with a
/// different character.
proof fn lemma_lit_mismatch(s: Seq<char>, tok: Seq<char>)
    requires
        tok.len() > 0,
        skip_ws(s).len() == 0 || skip_ws(s)[0] != tok[0],
    ensures
        parse_lit(s, tok) is None,
{
    let t = skip_ws(s);
    if tok.len() <= t.len() && t.subrange(0, tok.len() as int) == tok {
        assert(t.subrange(0, tok.len() as int)[0] == t[0]);
    }
}

/// The emitted time object parses back to its two numbers.
proof fn lemma_parse_time_at(w: Seq<char>, secs: u64, nanos: u32, rest: Seq<char>)
    requires
        ws_only(w),
    ensures
        parse_time_obj(w + json_time_obj(secs, nanos) + rest) == Some(
            ((secs, nanos as u64), rest),
        ),
{
    lemma_layout_facts();
    let e: Seq<char> = Seq::empty();
    let s7 = "\n          "@ + "}"@ + rest;
    let s6 = " "@ + dec_str(nanos as int) + s7;
    let s5 = e + ":"@ + s6;
    let s4 = "\n            "@ + "\"nanos\""@ + s5;
    let s3 = e + ","@ + s4;
    let s2 = " "@ + dec_str(secs as int) + s3;
    let s1 = e + ":"@ + s2;
    let s0 = "\n            "@ + "\"secs\""@ + s1;
    let sa = w + "{"@ + s0;
    assert(w + json_time_obj(secs, nanos) + rest =~= sa);
    lemma_parse_lit_at(w, "{"@, s0);
    lemma_parse_lit_at("\n            "@, "\"secs\""@, s1);
    lemma_parse_lit_at(e, ":"@, s2);
    assert(s3[0] == ',');
    lemma_parse_u64_at(" "@, secs, s3);
    lemma_parse_lit_at(e, ","@, s4);
    lemma_parse_lit_at("\n            "@, "\"nanos\""@, s5);
    lemma_parse_lit_at(e, ":"@, s6);
    assert(s7[0] == "\n          "@[0]);
    assert(is_ws(s7[0]));
    assert(!crate::text::is_digit_char(s7[0]));
    lemma_parse_u64_at(" "@, (nanos as u64), s7);
    lemma_parse_lit_at("\n          "@, "}"@, rest);
}

/// An emitted string field parses back to its value.
proof fn lemma_parse_str_field_at(key: Seq<char>, val: Seq<char>, rest: Seq<char>)
    requires
        key.len() > 0,
        !is_ws(key[0]),
    ensures
        parse_str_field(json_str_field(key, val) + rest, key) == Some((val, rest)),
{
    lemma_layout_facts();
    let e: Seq<char> = Seq::empty();
    let s3 = " "@ + quoted(val) + rest;
    let s2 = e + ":"@ + s3;
    let s1 = "\n          "@ + key + s2;
    let s0 = e + ","@ + s1;
    assert(json_str_field(key, val) + rest =~= s0);
    lemma_parse_lit_at(e, ","@, s1);
    lemma_parse_lit_at("\n          "@, key, s2);
    lemma_parse_lit_at(e, ":"@, s3);
    lemma_parse_string_at(" "@, val, rest);
}

/// One emitted stat parses back to itself.
proof fn lemma_parse_stat_at(w: Seq<char>, v: StatV, rest: Seq<char>)
    requires
        ws_only(w),
        v.wf(),
    ensures
        parse_stat_v(w + json_of_stat(v) + rest) == Some((v, rest)),
        (w + json_of_stat(v) + rest).len() > rest.len(),
{
    lemma_layout_facts();
    let e: Seq<char> = Seq::empty();
    let s6 = "\n        "@ + "}"@ + rest;
    let s5 = json_str_field("\"datetime\""@, v.datetime) + s6;
    let s4 = json_str_field("\"comment\""@, v.comment) + s5;
    let s3 = json_str_field("\"scramble\""@, v.scramble) + s4;
    let s2 = e + json_time_obj(v.secs, v.nanos) + s3;
    let s1 = e + ":"@ + (" "@ + json_time_obj(v.secs, v.nanos) + s3);
    let s0 = "\n          "@ + "\"time\""@ + s1;
    let sa = w + "{"@ + s0;
    assert(w + json_of_stat(v) + rest =~= sa);
    lemma_parse_lit_at(w, "{"@, s0);
    lemma_parse_lit_at("\n          "@, "\"time\""@, s1);
    lemma_parse_lit_at(e, ":"@, " "@ + json_time_obj(v.secs, v.nanos) + s3);
    lemma_parse_time_at(" "@, v.secs, v.nanos, s3);
    lemma_parse_str_field_at("\"scramble\""@, v.scramble, s4);
    lemma_parse_str_field_at("\"comment\""@, v.comment, s5);
    lemma_parse_str_field_at("\"datetime\""@, v.datetime, s6);
    lemma_parse_lit_at("\n        "@, "}"@, rest);
    assert(parse_stat_v(sa) == Some(
        (
            StatV {
                secs: v.secs,
                nanos: (v.nanos as u64) as u32,
                scramble: v.scramble,
                comment: v.comment,
                datetime: v.datetime,
            },
            rest,
        ),
    ));
    assert(StatV {
        secs: v.secs,
        nanos: (v.nanos as u64) as u32,
        scramble: v.scramble,
        comment: v.comment,
        datetime: v.datetime,
    } == v);
}

/// A non-empty item list is its first stat followed by the others.
#[verifier::spinoff_prover]
proof fn lemma_items_front(ss: Seq<StatV>)
    requires
        ss.len() >= 2,
    ensures
        json_of_items(ss) =~= ("\n        "@ + json_of_stat(ss[0])) + (","@ + json_of_items(
            ss.drop_first(),
        )),
    decreases ss.len(),
{
    let dl = ss.drop_last();
    let df = ss.drop_first();
    if ss.len() == 2 {
        assert(dl.len() == 1 && dl[0] == ss[0]);
        assert(df.len() == 1 && df[0] == ss[1]);
        assert(json_of_items(dl) == "\n        "@ + json_of_stat(dl[0]));
        assert(json_of_items(df) == "\n        "@ + json_of_stat(df[0]));
        assert(json_of_items(ss) == json_of_items(dl) + ","@ + "\n        "@ + json_of_stat(
            ss.last(),
        ));
        assert(json_of_items(ss) =~= ("\n        "@ + json_of_stat(ss[0])) + (","@
            + json_of_items(df)));
    } else {
        lemma_items_front(dl);
        assert(df.drop_last() =~= dl.drop_first());
        assert(df.len() >= 2);
        assert(df.last() == ss.last());
        assert(dl[0] == ss[0]);
        assert(json_of_items(ss) == json_of_items(dl) + ","@ + "\n        "@ + json_of_stat(
            ss.last(),
        ));
        assert(json_of_items(df) == json_of_items(df.drop_last()) + ","@ + "\n        "@
            + json_of_stat(df.last()));
        assert(json_of_items(ss) =~= ("\n        "@ + json_of_stat(ss[0])) + (","@
            + json_of_items(df)));
    }
}

/// After whitespace, an emitted item list starts with a stat's opening
/// brace.
#[verifier::spinoff_prover]
proof fn lemma_items_starts(ss: Seq<StatV>, t: Seq<char>)
    ensures
        ss.len() >= 1 ==> {
            let u = skip_ws(json_of_items(ss) + t);
            u.len() > 0 && u[0] == '{'
        },
{
    lemma_layout_facts();
    if ss.len() >= 1 {
        let r = if ss.len() == 1 {
            json_of_stat(ss[0]) + t
        } else {
            json_of_stat(ss[0]) + (","@ + json_of_items(ss.drop_first()) + t)
        };
        if ss.len() == 1 {
            assert(json_of_items(ss) + t =~= "\n        "@ + r);
        } else {
            lemma_items_front(ss);
            assert(json_of_items(ss) + t =~= "\n        "@ + r);
        }
        crate::json::lemma_skip_ws_concat("\n        "@, r);
        assert(r[0] == '{');
        assert(skip_ws(r) == r);
    }
}

/// An emitted item list followed by its closing bracket parses back.
#[verifier::rlimit(100)]
#[verifier::spinoff_prover]
proof fn lemma_parse_items_at(ss: Seq<StatV>, rest: Seq<char>)
    requires
        ss.len() >= 1,
        forall|i: int| 0 <= i < ss.len() ==> (#[trigger] ss[i]).wf(),
    ensures
        parse_stat_items(json_of_items(ss) + ("\n      "@ + "]"@ + rest)) == Some((ss, rest)),
    decreases ss.len(),
{
    lemma_layout_facts();
    let e: Seq<char> = Seq::empty();
    let tail = "\n      "@ + "]"@ + rest;
    let s = json_of_items(ss) + tail;
    if ss.len() == 1 {
        assert(s =~= "\n        "@ + json_of_stat(ss[0]) + tail);
        lemma_parse_stat_at("\n        "@, ss[0], tail);
        assert(tail =~= "\n      "@ + ("]"@ + rest));
        crate::json::lemma_skip_ws_concat("\n      "@, "]"@ + rest);
        assert(("]"@ + rest)[0] == ']');
        assert(skip_ws("]"@ + rest) == "]"@ + rest);
        lemma_lit_mismatch(tail, ","@);
        lemma_parse_lit_at("\n      "@, "]"@, rest);
        assert(seq![ss[0]] =~= ss);
    } else {
        let df = ss.drop_first();
        lemma_items_front(ss);
        let s2 = json_of_items(df) + tail;
        let s1 = e + ","@ + s2;
        assert(s =~= "\n        "@ + json_of_stat(ss[0]) + s1);
        lemma_parse_stat_at("\n        "@, ss[0], s1);
        lemma_parse_lit_at(e, ","@, s2);
        lemma_parse_items_at(df, rest);
        assert(seq![ss[0]] + df =~= ss);
    }
}

/// An emitted stat array parses back to its stats.
#[verifier::rlimit(100)]
#[verifier::spinoff_prover]
proof fn lemma_parse_list_at(w: Seq<char>, ss: Seq<StatV>, rest: Seq<char>)
    requires
        ws_only(w),
        forall|i: int| 0 <= i < ss.len() ==> (#[trigger] ss[i]).wf(),
    ensures
        parse_stat_list(w + json_of_stat_list(ss) + rest) == Some((ss, rest)),
{
    lemma_layout_facts();
    let e: Seq<char> = Seq::empty();
    let s = w + json_of_stat_list(ss) + rest;
    if ss.len() == 0 {
        assert(s =~= w + "["@ + (e + "]"@ + rest));
        lemma_parse_lit_at(w, "["@, e + "]"@ + rest);
        lemma_parse_lit_at(e, "]"@, rest);
    } else {
        let tail = "\n      "@ + "]"@ + rest;
        let s1 = json_of_items(ss) + tail;
        assert(s =~= w + "["@ + s1);
        lemma_parse_lit_at(w, "["@, s1);
        lemma_items_starts(ss, tail);
        lemma_lit_mismatch(s1, "]"@);
        lemma_parse_items_at(ss, rest);
    }
}

/// An emitted session object parses back to itself.
#[verifier::rlimit(100)]
#[verifier::spinoff_prover]
proof fn lemma_parse_session_at(w: Seq<char>, v: SessionV, rest: Seq<char>)
    requires
        ws_only(w),
        v.wf(),
    ensures
        parse_session_v(w + json_of_session(v) + rest) == Some((v, rest)),
{
    lemma_layout_facts();
    let e: Seq<char> = Seq::empty();
    let s7 = "\n    "@ + "}"@ + rest;
    let s6 = " "@ + json_of_stat_list(v.stats) + s7;
    let s5 = e + ":"@ + s6;
    let s4 = "\n      "@ + "\"stats\""@ + s5;
    let s3 = e + ","@ + s4;
    let s2 = " "@ + quoted(v.scramble_type) + s3;
    let s1 = e + ":"@ + s2;
    let s0 = "\n      "@ + "\"scramble_type\""@ + s1;
    let sa = w + "{"@ + s0;
    assert(w + json_of_session(v) + rest =~= sa);
    lemma_parse_lit_at(w, "{"@, s0);
    lemma_parse_lit_at("\n      "@, "\"scramble_type\""@, s1);
    lemma_parse_lit_at(e, ":"@, s2);
    lemma_parse_string_at(" "@, v.scramble_type, s3);
    lemma_parse_lit_at(e, ","@, s4);
    lemma_parse_lit_at("\n      "@, "\"stats\""@, s5);
    lemma_parse_lit_at(e, ":"@, s6);
    lemma_parse_list_at(" "@, v.stats, s7);
    lemma_parse_lit_at("\n    "@, "}"@, rest);
    assert(SessionV { scramble_type: v.scramble_type, stats: v.stats } == v);
}

/// A non-empty entry list is its first entry followed by the others.
#[verifier::rlimit(100)]
#[verifier::spinoff_prover]
proof fn lemma_entries_front(es: Seq<(Seq<char>, SessionV)>)
    requires
        es.len() >= 2,
    ensures
        json_of_entries(es) =~= json_of_entry(es[0].0, es[0].1) + (","@ + json_of_entries(
            es.drop_first(),
        )),
    decreases es.len(),
{
    let dl = es.drop_last();
    let df = es.drop_first();
    if es.len() == 2 {
        assert(dl.len() == 1 && dl[0] == es[0]);
        assert(df.len() == 1 && df[0] == es[1]);
        assert(json_of_entries(dl) == json_of_entry(dl[0].0, dl[0].1));
        assert(json_of_entries(df) == json_of_entry(df[0].0, df[0].1));
        assert(json_of_entries(es) == json_of_entries(dl) + ","@ + json_of_entry(
            es.last().0,
            es.last().1,
        ));
        assert(json_of_entries(es) =~= json_of_entry(es[0].0, es[0].1) + (","@ + json_of_entries(
            df,
        )));
    } else {
        lemma_entries_front(dl);
        assert(df.drop_last() =~= dl.drop_first());
        assert(df.len() >= 2);
        assert(df.last() == es.last());
        assert(dl[0] == es[0]);
        assert(json_of_entries(es) == json_of_entries(dl) + ","@ + json_of_entry(
            es.last().0,
            es.last().1,
        ));
        assert(json_of_entries(df) == json_of_entries(df.drop_last()) + ","@ + json_of_entry(
            df.last().0,
            df.last().1,
        ));
        assert(json_of_entries(es) =~= json_of_entry(es[0].0, es[0].1) + (","@ + json_of_entries(
            df,
        )));
    }
}

/// After whitespace, an emitted entry list starts with a name's quote.
#[verifier::spinoff_prover]
proof fn lemma_entries_starts(es: Seq<(Seq<char>, SessionV)>, t: Seq<char>)
    ensures
        es.len() >= 1 ==> {
            let u = skip_ws(json_of_entries(es) + t);
            u.len() > 0 && u[0] == '"'
        },
{
    lemma_layout_facts();
    if es.len() >= 1 {
        let r = if es.len() == 1 {
            quoted(es[0].0) + ":"@ + " "@ + json_of_session(es[0].1) + t
        } else {
            quoted(es[0].0) + ":"@ + " "@ + json_of_session(es[0].1) + (","@ + json_of_entries(
                es.drop_first(),
            ) + t)
        };
        if es.len() == 1 {
            assert(json_of_entries(es) + t =~= "\n    "@ + r);
        } else {
            lemma_entries_front(es);
            assert(json_of_entries(es) + t =~= "\n    "@ + r);
        }
        crate::json::lemma_skip_ws_concat("\n    "@, r);
        assert(r[0] == '"');
        assert(skip_ws(r) == r);
    }
}

/// Emitted entries followed by the closing brace of the session map parse
/// back, appended to what was already collected.
#[verifier::rlimit(100)]
#[verifier::spinoff_prover]
proof fn lemma_parse_entries_at(
    acc: Seq<(Seq<char>, SessionV)>,
    es: Seq<(Seq<char>, SessionV)>,
    rest: Seq<char>,
)
    requires
        es.len() >= 1,
        (StatsV { sessions: acc + es }).names_unique(),
        forall|i: int| 0 <= i < es.len() ==> (#[trigger] es[i]).1.wf(),
    ensures
        parse_entries_v(json_of_entries(es) + ("\n  "@ + "}"@ + rest), acc) == Some(
            (acc + es, rest),
        ),
    decreases es.len(),
{
    lemma_layout_facts();
    let e: Seq<char> = Seq::empty();
    let tail = "\n  "@ + "}"@ + rest;
    let s = json_of_entries(es) + tail;
    let name = es[0].0;
    let sv = es[0].1;
    let all_m = StatsV { sessions: acc + es };
    // The name has not been seen yet.
    assert forall|i: int| 0 <= i < acc.len() implies (#[trigger] acc[i]).0 != name by {
        assert(all_m.sessions[i] == acc[i]);
        assert(all_m.sessions[acc.len() as int] == es[0]);
        assert(all_m.sessions[i].0 != all_m.sessions[acc.len() as int].0);
    }
    if es.len() == 1 {
        let s2 = " "@ + json_of_session(sv) + tail;
        let s1 = e + ":"@ + s2;
        assert(s =~= "\n    "@ + quoted(name) + s1);
        lemma_parse_string_at("\n    "@, name, s1);
        lemma_parse_lit_at(e, ":"@, s2);
        lemma_parse_session_at(" "@, sv, tail);
        assert(tail =~= "\n  "@ + ("}"@ + rest));
        crate::json::lemma_skip_ws_concat("\n  "@, "}"@ + rest);
        assert(("}"@ + rest)[0] == '}');
        assert(skip_ws("}"@ + rest) == "}"@ + rest);
        lemma_lit_mismatch(tail, ","@);
        lemma_parse_lit_at("\n  "@, "}"@, rest);
        assert(acc.push(es[0]) =~= acc + es);
    } else {
        let df = es.drop_first();
        lemma_entries_front(es);
        let s3 = json_of_entries(df) + tail;
        let sc = e + ","@ + s3;
        let s2 = " "@ + json_of_session(sv) + sc;
        let s1 = e + ":"@ + s2;
        assert(s =~= "\n    "@ + quoted(name) + s1);
        lemma_parse_string_at("\n    "@, name, s1);
        lemma_parse_lit_at(e, ":"@, s2);
        lemma_parse_session_at(" "@, sv, sc);
        lemma_parse_lit_at(e, ","@, s3);
        let acc2 = acc.push(es[0]);
        assert(acc2 + df =~= acc + es);
        lemma_parse_entries_at(acc2, df, rest);
    }
}

/// The empty entry list.
spec fn e_entries() -> Seq<(Seq<char>, SessionV)> {
    Seq::empty()
}

/// Stats round-trip: parsing the emitted document of a well-formed store
/// yields exactly that store, so `load` after `save` restores the same
/// sessions, stats, times, scrambles, comments and datetimes.
#[verifier::rlimit(100)]
#[verifier::spinoff_prover]
pub proof fn lemma_stats_round_trip(m: StatsV)
    requires
        m.wf(),
    ensures
        parse_stats_text(json_of_stats(m)) == Some(m),
{
    lemma_layout_facts();
    let e: Seq<char> = Seq::empty();
    if m.sessions.len() == 0 {
        let s4 = "\n"@ + "}"@ + e;
        let s3 = e + "}"@ + s4;
        let s2 = " "@ + "{"@ + s3;
        let s1 = e + ":"@ + s2;
        let s0 = "\n  "@ + "\"sessions\""@ + s1;
        let sa = e + "{"@ + s0;
        assert(json_of_stats(m) =~= sa);
        lemma_parse_lit_at(e, "{"@, s0);
        lemma_parse_lit_at("\n  "@, "\"sessions\""@, s1);
        lemma_parse_lit_at(e, ":"@, s2);
        lemma_parse_lit_at(" "@, "{"@, s3);
        lemma_parse_lit_at(e, "}"@, s4);
        lemma_parse_lit_at("\n"@, "}"@, e);
        assert(skip_ws(e).len() == 0);
        assert(m.sessions =~= Seq::<(Seq<char>, SessionV)>::empty());
        assert(StatsV { sessions: Seq::empty() } == m);
    } else {
        let fin = "\n"@ + "}"@ + e;
        let s3 = json_of_entries(m.sessions) + ("\n  "@ + "}"@ + fin);
        let s2 = " "@ + "{"@ + s3;
        let s1 = e + ":"@ + s2;
        let s0 = "\n  "@ + "\"sessions\""@ + s1;
        let sa = e + "{"@ + s0;
        assert(json_of_stats(m) =~= sa);
        lemma_parse_lit_at(e, "{"@, s0);
        lemma_parse_lit_at("\n  "@, "\"sessions\""@, s1);
        lemma_parse_lit_at(e, ":"@, s2);
        lemma_parse_lit_at(" "@, "{"@, s3);
        lemma_entries_starts(m.sessions, "\n  "@ + "}"@ + fin);
        lemma_lit_mismatch(s3, "}"@);
        assert(e_entries() + m.sessions =~= m.sessions);
        assert((StatsV { sessions: e_entries() + m.sessions }) == m);
        lemma_parse_entries_at(e_entries(), m.sessions, fin);
        lemma_parse_lit_at("\n"@, "}"@, e);
        assert(skip_ws(e).len() == 0);
    }
}

// ------------------------------------------------------------------
// The executable emitter.
// ------------------------------------------------------------------

/// Appends a decimal number.
fn push_u64(out: &mut Vec<char>, n: u64)
    ensures
        final(out)@ == old(out)@ + dec_str(n as int),
{
    let d = u64_to_dec(n);
    push_str_chars(out, d.as_str());
}

/// Appends the `time` sub-object.
fn push_time_obj(out: &mut Vec<char>, secs: u64, nanos: u32)
    ensures
        final(out)@ == old(out)@ + json_time_obj(secs, nanos),
{
    let ghost base = old(out)@;
    push_str_chars(out, "{");
    push_str_chars(out, "\n            ");
    push_str_chars(out, "\"secs\"");
    push_str_chars(out, ":");
    push_str_chars(out, " ");
    push_u64(out, secs);
    push_str_chars(out, ",");
    push_str_chars(out, "\n            ");
    push_str_chars(out, "\"nanos\"");
    push_str_chars(out, ":");
    push_str_chars(out, " ");
    push_u64(out, nanos as u64);
    push_str_chars(out, "\n          ");
    push_str_chars(out, "}");
    proof {
        assert(out@ =~= base + json_time_obj(secs, nanos));
    }
}

/// Appends one string-valued field, comma first.
fn push_str_field(out: &mut Vec<char>, key: &str, val: &str)
    ensures
        final(out)@ == old(out)@ + json_str_field(key@, val@),
{
    let ghost base = old(out)@;
    push_str_chars(out, ",");
    push_str_chars(out, "\n          ");
    push_str_chars(out, key);
    push_str_chars(out, ":");
    push_str_chars(out, " ");
    push_quoted(out, val);
    proof {
        assert(out@ =~= base + json_str_field(key@, val@));
    }
}

/// Appends one stat object.
fn push_stat(out: &mut Vec<char>, st: &Stat)
    ensures
        final(out)@ == old(out)@ + json_of_stat(st@),
{
    let ghost base = old(out)@;
    push_str_chars(out, "{");
    push_str_chars(out, "\n          ");
    push_str_chars(out, "\"time\"");
    push_str_chars(out, ":");
    push_str_chars(out, " ");
    push_time_obj(out, st.time.secs, st.time.nanos);
    push_str_field(out, "\"scramble\"", st.scramble.as_str());
    push_str_field(out, "\"comment\"", st.comment.as_str());
    push_str_field(out, "\"datetime\"", st.datetime.as_str());
    push_str_chars(out, "\n        ");
    push_str_chars(out, "}");
    proof {
        assert(out@ =~= base + json_of_stat(st@));
    }
}

/// Appends the items of a non-empty stat list.
fn push_items(out: &mut Vec<char>, stats: &Vec<Stat>)
    requires
        stats@.len() >= 1,
    ensures
        final(out)@ == old(out)@ + json_of_items(
            Seq::new(stats@.len(), |i: int| stats@[i]@),
        ),
{
    let ghost base = old(out)@;
    let ghost ss = Seq::new(stats@.len(), |i: int| stats@[i]@);
    let mut i: usize = 0;
    while i < stats.len()
        invariant
            i <= stats@.len(),
            stats@.len() >= 1,
            ss == Seq::new(stats@.len(), |k: int| stats@[k]@),
            i == 0 ==> out@ == base,
            i >= 1 ==> out@ == base + json_of_items(ss.subrange(0, i as int)),
        decreases stats@.len() - i,
    {
        if i > 0 {
            push_str_chars(out, ",");
        }
        push_str_chars(out, "\n        ");
        push_stat(out, &stats[i]);
        proof {
            let part = ss.subrange(0, i + 1);
            assert(part.drop_last() =~= ss.subrange(0, i as int));
            assert(part.last() == ss[i as int]);
            assert(ss[i as int] == stats@[i as int]@);
            if i == 0 {
                assert(part.len() == 1);
                assert(part[0] == ss[0]);
                assert(out@ =~= base + json_of_items(part));
            } else {
                assert(json_of_items(part) == json_of_items(part.drop_last()) + ","@
                    + "\n        "@ + json_of_stat(part.last()));
                assert(out@ =~= base + json_of_items(part));
            }
        }
        i += 1;
    }
    proof {
        assert(ss.subrange(0, stats@.len() as int) =~= ss);
    }
}

/// Appends one session object.
#[verifier::rlimit(100)]
#[verifier::spinoff_prover]
fn push_session(out: &mut Vec<char>, s: &Session)
    ensures
        final(out)@ == old(out)@ + json_of_session(s@),
{
    let ghost base = old(out)@;
    push_str_chars(out, "{");
    push_str_chars(out, "\n      ");
    push_str_chars(out, "\"scramble_type\"");
    push_str_chars(out, ":");
    push_str_chars(out, " ");
    push_quoted(out, s.scramble_type.as_str());
    push_str_chars(out, ",");
    push_str_chars(out, "\n      ");
    push_str_chars(out, "\"stats\"");
    push_str_chars(out, ":");
    push_str_chars(out, " ");
    if s.stats.len() == 0 {
        push_str_chars(out, "[");
        push_str_chars(out, "]");
    } else {
        push_str_chars(out, "[");
        push_items(out, &s.stats);
        push_str_chars(out, "\n      ");
        push_str_chars(out, "]");
    }
    push_str_chars(out, "\n    ");
    push_str_chars(out, "}");
    proof {
        assert(out@ =~= base + json_of_session(s@));
    }
}

impl Stats {
    /// Writes the whole store as its persisted JSON document.
    #[verifier::rlimit(100)]
    #[verifier::spinoff_prover]
    pub fn to_json(&self) -> (r: String)
        ensures
            r@ == json_of_stats(self@),
    {
        let mut out: Vec<char> = Vec::new();
        push_str_chars(&mut out, "{");
        push_str_chars(&mut out, "\n  ");
        push_str_chars(&mut out, "\"sessions\"");
        push_str_chars(&mut out, ":");
        push_str_chars(&mut out, " ");
        push_str_chars(&mut out, "{");
        let ghost head = out@;
        let n = self.session_count();
        if n == 0 {
            push_str_chars(&mut out, "}");
        } else {
            let ghost es = self@.sessions;
            let mut i: usize = 0;
            while i < n
                invariant
                    i <= n,
                    n == self@.sessions.len(),
                    n >= 1,
                    es == self@.sessions,
                    i == 0 ==> out@ == head,
                    i >= 1 ==> out@ == head + json_of_entries(es.subrange(0, i as int)),
                decreases n - i,
            {
                if i > 0 {
                    push_str_chars(&mut out, ",");
                }
                let ghost before = out@;
                let entry = self.entry_at(i);
                push_str_chars(&mut out, "\n    ");
                push_quoted(&mut out, entry.0.as_str());
                push_str_chars(&mut out, ":");
                push_str_chars(&mut out, " ");
                push_session(&mut out, entry.1);
                proof {
                    let part = es.subrange(0, i + 1);
                    assert(part.drop_last() =~= es.subrange(0, i as int));
                    assert(part.last() == es[i as int]);
                    if i == 0 {
                        assert(part.len() == 1);
                        assert(part[0] == es[0]);
                        assert(out@ =~= head + json_of_entries(part));
                    } else {
                        assert(json_of_entries(part) == json_of_entries(part.drop_last()) + ","@
                            + json_of_entry(part.last().0, part.last().1));
                        assert(out@ =~= head + json_of_entries(part));
                    }
                }
                i += 1;
            }
            proof {
                assert(es.subrange(0, n as int) =~= es);
            }
            push_str_chars(&mut out, "\n  ");
            push_str_chars(&mut out, "}");
        }
        push_str_chars(&mut out, "\n");
        push_str_chars(&mut out, "}");
        let r = crate::text::string_from_chars(&out);
        proof {
            assert(r@ =~= json_of_stats(self@));
        }
        r
    }
}

// ------------------------------------------------------------------
// The executable parser.
// ------------------------------------------------------------------

/// Parses the `time` sub-object.
fn p_time(s: &Vec<char>, i: usize) -> (r: Option<((u64, u64), usize)>)
    requires
        i <= s@.len(),
    ensures
        match r {
            Some(p) => i < p.1 <= s@.len() && parse_time_obj(suffix(s@, i as int)) == Some(
                (p.0, suffix(s@, p.1 as int)),
            ),
            None => parse_time_obj(suffix(s@, i as int)) is None,
        },
{
    proof {
        lemma_layout_facts();
    }
    let j1 = match p_lit(s, i, "{") {
        Some(j) => j,
        None => {
            return None;
        },
    };
    let j2 = match p_lit(s, j1, "\"secs\"") {
        Some(j) => j,
        None => {
            return None;
        },
    };
    let j3 = match p_lit(s, j2, ":") {
        Some(j) => j,
        None => {
            return None;
        },
    };
    let (secs, j4) = match p_u64(s, j3) {
        Some(p) => p,
        None => {
            return None;
        },
    };
    let j5 = match p_lit(s, j4, ",") {
        Some(j) => j,
        None => {
            return None;
        },
    };
    let j6 = match p_lit(s, j5, "\"nanos\"") {
        Some(j) => j,
        None => {
            return None;
        },
    };
    let j7 = match p_lit(s, j6, ":") {
        Some(j) => j,
        None => {
            return None;
        },
    };
    let (nanos, j8) = match p_u64(s, j7) {
        Some(p) => p,
        None => {
            return None;
        },
    };
    let j9 = match p_lit(s, j8, "}") {
        Some(j) => j,
        None => {
            return None;
        },
    };
    Some(((secs, nanos), j9))
}

/// Parses one string-valued field introduced by a comma and the key.
fn p_field(s: &Vec<char>, i: usize, key: &str) -> (r: Option<(String, usize)>)
    requires
        i <= s@.len(),
        key@.len() > 0,
    ensures
        match r {
            Some(p) => i < p.1 <= s@.len() && parse_str_field(suffix(s@, i as int), key@)
                == Some((p.0@, suffix(s@, p.1 as int))),
            None => parse_str_field(suffix(s@, i as int), key@) is None,
        },
{
    proof {
        lemma_layout_facts();
    }
    let j1 = match p_lit(s, i, ",") {
        Some(j) => j,
        None => {
            return None;
        },
    };
    let j2 = match p_lit(s, j1, key) {
        Some(j) => j,
        None => {
            return None;
        },
    };
    let j3 = match p_lit(s, j2, ":") {
        Some(j) => j,
        None => {
            return None;
        },
    };
    p_string(s, j3)
}

/// Parses one stat object.
fn p_stat(s: &Vec<char>, i: usize) -> (r: Option<(Stat, usize)>)
    requires
        i <= s@.len(),
    ensures
        match r {
            Some(p) => i < p.1 <= s@.len() && parse_stat_v(suffix(s@, i as int)) == Some(
                (p.0@, suffix(s@, p.1 as int)),
            ) && p.0@.wf(),
            None => parse_stat_v(suffix(s@, i as int)) is None,
        },
{
    proof {
        lemma_layout_facts();
    }
    let j1 = match p_lit(s, i, "{") {
        Some(j) => j,
        None => {
            return None;
        },
    };
    let j2 = match p_lit(s, j1, "\"time\"") {
        Some(j) => j,
        None => {
            return None;
        },
    };
    let j3 = match p_lit(s, j2, ":") {
        Some(j) => j,
        None => {
            return None;
        },
    };
    let ((secs, nanos), j4) = match p_time(s, j3) {
        Some(p) => p,
        None => {
            return None;
        },
    };
    if nanos >= 1_000_000_000 {
        return None;
    }
    let (scramble, j5) = match p_field(s, j4, "\"scramble\"") {
        Some(p) => p,
        None => {
            return None;
        },
    };
    let (comment, j6) = match p_field(s, j5, "\"comment\"") {
        Some(p) => p,
        None => {
            return None;
        },
    };
    let (datetime, j7) = match p_field(s, j6, "\"datetime\"") {
        Some(p) => p,
        None => {
            return None;
        },
    };
    let j8 = match p_lit(s, j7, "}") {
        Some(j) => j,
        None => {
            return None;
        },
    };
    let st = Stat::from_parts(SolveTime::new(secs, nanos as u32), scramble, comment, datetime);
    Some((st, j8))
}

/// Parses the items of a stat array, the closing bracket included.
fn p_items(s: &Vec<char>, i: usize) -> (r: Option<(Vec<Stat>, usize)>)
    requires
        i <= s@.len(),
    ensures
        match r {
            Some(p) => i < p.1 <= s@.len() && parse_stat_items(suffix(s@, i as int)) == Some(
                (Seq::new(p.0@.len(), |q: int| p.0@[q]@), suffix(s@, p.1 as int)),
            ) && forall|q: int| 0 <= q < p.0@.len() ==> (#[trigger] p.0@[q])@.wf(),
            None => parse_stat_items(suffix(s@, i as int)) is None,
        },
{
    proof {
        lemma_layout_facts();
    }
    let mut acc: Vec<Stat> = Vec::new();
    let mut k = i;
    loop
        invariant
            i <= k <= s@.len(),
            forall|q: int| 0 <= q < acc@.len() ==> (#[trigger] acc@[q])@.wf(),
            parse_stat_items(suffix(s@, i as int)) == match parse_stat_items(
                suffix(s@, k as int),
            ) {
                Some(p) => Some(
                    (Seq::new(acc@.len(), |q: int| acc@[q]@) + p.0, p.1),
                ),
                None => None::<(Seq<StatV>, Seq<char>)>,
            },
        decreases s@.len() - k,
    {
        proof {
            lemma_layout_facts();
        }
        let ghost accv = Seq::new(acc@.len(), |q: int| acc@[q]@);
        let (st, k1) = match p_stat(s, k) {
            Some(p) => p,
            None => {
                return None;
            },
        };
        let ghost stv = st@;
        acc.push(st);
        proof {
            assert(Seq::new(acc@.len(), |q: int| acc@[q]@) =~= accv.push(stv));
        }
        match p_lit(s, k1, ",") {
            Some(k2) => {
                proof {
                    assert(suffix(s@, k2 as int).len() < suffix(s@, k as int).len());
                    match parse_stat_items(suffix(s@, k2 as int)) {
                        Some(p) => {
                            assert(accv + (seq![stv] + p.0) =~= accv.push(stv) + p.0);
                        },
                        None => {},
                    }
                }
                k = k2;
            },
            None => {
                let k2 = match p_lit(s, k1, "]") {
                    Some(j) => j,
                    None => {
                        return None;
                    },
                };
                proof {
                    assert(accv + seq![stv] =~= accv.push(stv));
                }
                return Some((acc, k2));
            },
        }
    }
}

/// Parses one session object.
fn p_session(s: &Vec<char>, i: usize) -> (r: Option<(Session, usize)>)
    requires
        i <= s@.len(),
    ensures
        match r {
            Some(p) => i < p.1 <= s@.len() && parse_session_v(suffix(s@, i as int)) == Some(
                (p.0@, suffix(s@, p.1 as int)),
            ) && p.0@.wf(),
            None => parse_session_v(suffix(s@, i as int)) is None,
        },
{
    proof {
        lemma_layout_facts();
    }
    let j1 = match p_lit(s, i, "{") {
        Some(j) => j,
        None => {
            return None;
        },
    };
    let j2 = match p_lit(s, j1, "\"scramble_type\"") {
        Some(j) => j,
        None => {
            return None;
        },
    };
    let j3 = match p_lit(s, j2, ":") {
        Some(j) => j,
        None => {
            return None;
        },
    };
    let (scramble_type, j4) = match p_string(s, j3) {
        Some(p) => p,
        None => {
            return None;
        },
    };
    let j5 = match p_lit(s, j4, ",") {
        Some(j) => j,
        None => {
            return None;
        },
    };
    let j6 = match p_lit(s, j5, "\"stats\"") {
        Some(j) => j,
        None => {
            return None;
        },
    };
    let j7 = match p_lit(s, j6, ":") {
        Some(j) => j,
        None => {
            return None;
        },
    };
    let j8 = match p_lit(s, j7, "[") {
        Some(j) => j,
        None => {
            return None;
        },
    };
    let (stats, j9) = match p_lit(s, j8, "]") {
        Some(j) => (Vec::new(), j),
        None => {
            match p_items(s, j8) {
                Some(p) => p,
                None => {
                    return None;
                },
            }
        },
    };
    let j10 = match p_lit(s, j9, "}") {
        Some(j) => j,
        None => {
            return None;
        },
    };
    let sess = Session { scramble_type, stats };
    proof {
        assert(sess@.stats =~= Seq::new(sess.stats@.len(), |q: int| sess.stats@[q]@));
        if sess.stats.len() == 0 {
            assert(sess@.stats =~= Seq::<StatV>::empty());
        }
        assert forall|q: int| 0 <= q < sess@.stats.len() implies (
        #[trigger] sess@.stats[q]).wf() by {
            assert(sess@.stats[q] == sess.stats@[q]@);
        }
    }
    Some((sess, j10))
}

/// Parses the session entries up to and including the closing brace of
/// the session map, building the store as it goes.
fn p_entries(s: &Vec<char>, i: usize) -> (r: Option<(Stats, usize)>)
    requires
        i <= s@.len(),
    ensures
        match r {
            Some(p) => p.1 <= s@.len() && parse_entries_v(
                suffix(s@, i as int),
                Seq::empty(),
            ) == Some((p.0@.sessions, suffix(s@, p.1 as int))) && p.0@.wf(),
            None => parse_entries_v(suffix(s@, i as int), Seq::empty()) is None,
        },
{
    proof {
        lemma_layout_facts();
    }
    let mut st = Stats::new();
    let mut k = i;
    proof {
        assert(st@.sessions =~= Seq::<(Seq<char>, SessionV)>::empty());
    }
    loop
        invariant
            i <= k <= s@.len(),
            st@.wf(),
            parse_entries_v(suffix(s@, i as int), Seq::empty()) == parse_entries_v(
                suffix(s@, k as int),
                st@.sessions,
            ),
        decreases s@.len() - k,
    {
        proof {
            lemma_layout_facts();
        }
        let (name, k1) = match p_string(s, k) {
            Some(p) => p,
            None => {
                return None;
            },
        };
        if st.has_session(name.as_str()) {
            return None;
        }
        let k2 = match p_lit(s, k1, ":") {
            Some(j) => j,
            None => {
                return None;
            },
        };
        let (sess, k3) = match p_session(s, k2) {
            Some(p) => p,
            None => {
                return None;
            },
        };
        st.push_entry(name, sess);
        match p_lit(s, k3, ",") {
            Some(k4) => {
                proof {
                    assert(suffix(s@, k4 as int).len() < suffix(s@, k as int).len());
                }
                k = k4;
            },
            None => {
                let k4 = match p_lit(s, k3, "}") {
                    Some(j) => j,
                    None => {
                        return None;
                    },
                };
                return Some((st, k4));
            },
        }
    }
}

impl Stats {
    /// Reads a persisted document back into a store; anything malformed
    /// yields `None`.
    #[verifier::rlimit(100)]
    #[verifier::spinoff_prover]
    pub fn from_json(s: &str) -> (r: Option<Stats>)
        ensures
            match r {
                Some(st) => parse_stats_text(s@) == Some(st@) && st@.wf(),
                None => parse_stats_text(s@) is None,
            },
    {
        proof {
            lemma_layout_facts();
        }
        let v = chars_vec(s);
        proof {
            assert(suffix(v@, 0) =~= s@);
        }
        let j1 = match p_lit(&v, 0, "{") {
            Some(j) => j,
            None => {
                return None;
            },
        };
        let j2 = match p_lit(&v, j1, "\"sessions\"") {
            Some(j) => j,
            None => {
                return None;
            },
        };
        let j3 = match p_lit(&v, j2, ":") {
            Some(j) => j,
            None => {
                return None;
            },
        };
        let j4 = match p_lit(&v, j3, "{") {
            Some(j) => j,
            None => {
                return None;
            },
        };
        let st: Stats;
        let after_map: usize;
        match p_lit(&v, j4, "}") {
            Some(j) => {
                st = Stats::new();
                after_map = j;
            },
            None => {
                match p_entries(&v, j4) {
                    Some(p) => {
                        st = p.0;
                        after_map = p.1;
                    },
                    None => {
                        return None;
                    },
                }
            },
        }
        let after_doc = match p_lit(&v, after_map, "}") {
            Some(j) => j,
            None => {
                return None;
            },
        };
        let j_end = p_skip_ws(&v, after_doc);
        if j_end != v.len() {
            proof {
                assert(skip_ws(suffix(v@, after_doc as int)).len() > 0);
            }
            return None;
        }
        proof {
            assert(skip_ws(suffix(v@, after_doc as int)).len() == 0);
            assert(st@.sessions == StatsV { sessions: st@.sessions }.sessions);
        }
        Some(st)
    }
}

} // verus!
