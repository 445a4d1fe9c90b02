//! Laws that relate reading and writing: what is written reads back as the
//! value it was written from.
use vstd::prelude::*;
use crate::parameters::{Entries, key_index, lookup, insert_entry};
use crate::property::{Parsed, Scan, Fault, scan, scan_step, parse_value, parse_line, pair_text, params_text, value_text, line_text};
use crate::datetime::{DateTime, padded, lemma_datetime_text};
use crate::date_list::{ListModel, list_of, list_line, dates_of, dates_text, valid_list};
use crate::dtstart::{StartModel, start_of, start_line, valid_start, written_start, utc_name, declared_type, zone_and_type_entries};
use crate::rrule::{key_freq, key_interval, key_count, key_until, key_byhour, key_byminute, key_bysecond, key_bymonthday, key_byyearday, key_bysetpos, key_bymonth, key_byweekno, key_byday, key_wkst};
use crate::rrule::{RecurModel, rule_entries, rule_of_entries, rule_of, rule_line, opt_insert, list_field, items_of, u8_of, i8_of, i16_of, i32_of};
use crate::frequency::Frequency;
use crate::month::Month;
use crate::n_weekday::NWeekday;
use crate::weekday::Weekday;
use crate::rule_set::{CalModel, SetModel, add_line, assemble, empty_calendar, set_lines, set_text, set_of_text, list_lines, set_fits};
use crate::keys::{key_tzid, key_value, name_dtstart, name_exdate, name_rdate};
use crate::number::{all_digits, is_digit, int_text, lemma_int_text_value, lemma_int_text_chars};
use crate::value_type::ValueType;
use crate::properties::{LineModel, parse_lines, parse_text};
use crate::text::{is_space, trim, split, join, upper, upper_text, is_ascii_text, lead_spaces, trail_spaces, lemma_split_join, lemma_split_piece};

verus! {

/// No key stands twice.
pub open spec fn unique_keys(e: Entries) -> bool {
    forall|i: int, j: int| 0 <= i < j < e.len() ==> e[i].0 != e[j].0
}

/// `key_index` is the first place of the key, or -1 where it is absent.
pub proof fn lemma_key_index(e: Entries, k: Seq<char>)
    ensures
        key_index(e, k) == -1 ==> forall|i: int| 0 <= i < e.len() ==> e[i].0 != k,
        key_index(e, k) != -1 ==> 0 <= key_index(e, k) < e.len() && e[key_index(e, k)].0 == k
            && forall|i: int| 0 <= i < key_index(e, k) ==> e[i].0 != k,
    decreases e.len(),
{
    if e.len() > 0 {
        lemma_key_index(e.drop_last(), k);
        assert forall|i: int| 0 <= i < e.len() - 1 implies e[i] == e.drop_last()[i] by {}
    }
}

/// The first place holding `k` is `j`.
pub proof fn lemma_key_index_at(e: Entries, k: Seq<char>, j: int)
    requires
        0 <= j < e.len(),
        e[j].0 == k,
        forall|i: int| 0 <= i < j ==> e[i].0 != k,
    ensures
        key_index(e, k) == j,
{
    lemma_key_index(e, k);
    if key_index(e, k) == -1 {
        assert(e[j].0 != k);
    } else if key_index(e, k) < j {
    } else if key_index(e, k) > j {
    }
}

/// Where no place holds `k`, `key_index` is -1.
pub proof fn lemma_key_index_absent(e: Entries, k: Seq<char>)
    requires
        forall|i: int| 0 <= i < e.len() ==> e[i].0 != k,
    ensures
        key_index(e, k) == -1,
{
    lemma_key_index(e, k);
}

/// After an insertion the key holds the new value.
pub proof fn lemma_lookup_insert_same(e: Entries, k: Seq<char>, v: Seq<char>)
    ensures
        lookup(insert_entry(e, k, v), k) == Some(v),
{
    lemma_key_index(e, k);
    let j = key_index(e, k);
    let e2 = insert_entry(e, k, v);
    if j >= 0 {
        assert(e2[j].0 == k);
        assert forall|i: int| 0 <= i < j implies e2[i].0 != k by {
            assert(e2[i] == e[i]);
        }
        lemma_key_index_at(e2, k, j);
    } else {
        assert forall|i: int| 0 <= i < e.len() implies e2[i].0 != k by {
            assert(e2[i] == e[i]);
        }
        lemma_key_index_at(e2, k, e.len() as int);
    }
}

/// An insertion under one key leaves the others as they were.
pub proof fn lemma_lookup_insert_other(e: Entries, k: Seq<char>, v: Seq<char>, k2: Seq<char>)
    requires
        k2 != k,
    ensures
        lookup(insert_entry(e, k, v), k2) == lookup(e, k2),
{
    lemma_key_index(e, k);
    lemma_key_index(e, k2);
    let e2 = insert_entry(e, k, v);
    let j2 = key_index(e, k2);
    if j2 >= 0 {
        assert forall|i: int| 0 <= i < j2 implies e2[i].0 != k2 by {
            if i == key_index(e, k) {
            } else {
                assert(e2[i] == e[i]);
            }
        }
        assert(e2[j2] == e[j2]);
        lemma_key_index_at(e2, k2, j2);
    } else {
        assert forall|i: int| 0 <= i < e2.len() implies e2[i].0 != k2 by {
            if i < e.len() && i != key_index(e, k) {
                assert(e2[i] == e[i]);
            }
        }
        lemma_key_index_absent(e2, k2);
    }
}

/// Insertion keeps keys unique; a new key goes last.
pub proof fn lemma_insert_unique(e: Entries, k: Seq<char>, v: Seq<char>)
    requires
        unique_keys(e),
    ensures
        unique_keys(insert_entry(e, k, v)),
        (forall|i: int| 0 <= i < e.len() ==> e[i].0 != k) ==> insert_entry(e, k, v) == e.push((k, v)),
{
    lemma_key_index(e, k);
    let e2 = insert_entry(e, k, v);
    assert forall|i: int, j: int| 0 <= i < j < e2.len() implies e2[i].0 != e2[j].0 by {
        if key_index(e, k) >= 0 {
            let m = key_index(e, k);
            if i == m {
                assert(e[j].0 != e[m].0);
            } else if j == m {
                assert(e[i].0 != e[m].0);
            } else {
                assert(e2[i] == e[i] && e2[j] == e[j]);
            }
        } else {
            if j == e.len() {
                assert(e2[i] == e[i]);
            } else {
                assert(e2[i] == e[i] && e2[j] == e[j]);
            }
        }
    }
}

/// A character that may stand in a name, key or value: no whitespace and
/// none of the separators `:`, `;`, `=`.
pub open spec fn plain(c: char) -> bool {
    !is_space(c) && c != ':' && c != ';' && c != '='
}

pub open spec fn plain_text(s: Seq<char>) -> bool {
    forall|i: int| 0 <= i < s.len() ==> plain(#[trigger] s[i])
}

pub open spec fn no_space(s: Seq<char>) -> bool {
    forall|i: int| 0 <= i < s.len() ==> !is_space(#[trigger] s[i])
}

/// A name or key: plain, not empty, already upper-cased.
pub open spec fn good_key(k: Seq<char>) -> bool {
    k.len() > 0 && plain_text(k) && upper_text(k) == k
}

/// Pairs that read back: unique good keys, plain values.
pub open spec fn good_entries(e: Entries) -> bool {
    &&& unique_keys(e)
    &&& forall|i: int| 0 <= i < e.len() ==> good_key(#[trigger] e[i].0) && plain_text(e[i].1)
}

pub open spec fn good_value(v: Parsed) -> bool {
    match v {
        Parsed::Bare(t) => t.len() > 0 && plain_text(t),
        Parsed::Pairs(e) => good_entries(e),
    }
}

/// A line that reads back as itself.
pub open spec fn good_line(n: Seq<char>, e: Entries, v: Parsed) -> bool {
    good_key(n) && good_entries(e) && good_value(v)
}

pub proof fn lemma_trim_no_space(s: Seq<char>)
    requires
        no_space(s),
    ensures
        trim(s) == s,
{
    if s.len() > 0 {
        assert(!is_space(s[0]));
        assert(!is_space(s.last()));
    }
    assert(lead_spaces(s) == 0);
    let t = s.subrange(0, s.len() as int);
    assert(t =~= s);
    assert(trail_spaces(t) == 0);
    assert(trim(s) =~= s);
}

proof fn lemma_pair_split(k: Seq<char>, v: Seq<char>)
    requires
        plain_text(k),
        plain_text(v),
    ensures
        split(pair_text((k, v)), '=') == seq![k, v],
        no_space(pair_text((k, v))),
{
    let parts = seq![k, v];
    assert(parts.drop_last() =~= seq![k]);
    assert(join(seq![k], '=') == k);
    assert(join(parts, '=') =~= pair_text((k, v)));
    assert forall|i: int, j: int| 0 <= i < parts.len() && 0 <= j < parts[i].len() implies parts[i][j] != '=' by {
        if i == 0 {
            assert(plain(k[j]));
        } else {
            assert(plain(v[j]));
        }
    }
    lemma_split_join(parts, '=');
    let t = pair_text((k, v));
    assert forall|i: int| 0 <= i < t.len() implies !is_space(#[trigger] t[i]) by {
        if i < k.len() {
            assert(t[i] == k[i] && plain(k[i]));
        } else if i > k.len() {
            assert(t[i] == v[i - k.len() - 1] && plain(v[i - k.len() - 1]));
        }
    }
}

/// Reading the pairs written `KEY=VALUE` gives them back.
proof fn lemma_scan_pairs(e: Entries)
    requires
        good_entries(e),
    ensures
        scan(e.map_values(|p: (Seq<char>, Seq<char>)| pair_text(p))) == (if e.len() == 0 {
            Ok::<Scan, Fault>(Scan::Nothing)
        } else {
            Ok::<Scan, Fault>(Scan::Pairs(e))
        }),
    decreases e.len(),
{
    let ts = e.map_values(|p: (Seq<char>, Seq<char>)| pair_text(p));
    if e.len() > 0 {
        let init = e.drop_last();
        assert(ts.drop_last() =~= init.map_values(|p: (Seq<char>, Seq<char>)| pair_text(p)));
        assert(good_entries(init)) by {
            assert forall|i: int| 0 <= i < init.len() implies good_key(#[trigger] init[i].0) && plain_text(init[i].1) by {
                assert(init[i] == e[i]);
            }
        }
        lemma_scan_pairs(init);
        let p = e.last();
        assert(good_key(e[e.len() - 1].0) && plain_text(e[e.len() - 1].1));
        lemma_pair_split(p.0, p.1);
        lemma_trim_no_space(pair_text(p));
        assert(plain_text(p.0) ==> no_space(p.0));
        lemma_trim_no_space(p.0);
        lemma_trim_no_space(p.1);
        assert forall|i: int| 0 <= i < init.len() implies init[i].0 != p.0 by {
            assert(init[i] == e[i]);
        }
        lemma_insert_unique(init, p.0, p.1);
        assert(init.push(p) =~= e);
        if init.len() == 0 {
            assert(insert_entry(Seq::empty(), p.0, p.1) == init.push((p.0, p.1)));
        }
    }
}

/// The name and parameters, split at `;`.
proof fn lemma_params_join(n: Seq<char>, e: Entries)
    ensures
        n + params_text(e) == join(seq![n] + e.map_values(|p: (Seq<char>, Seq<char>)| pair_text(p)), ';'),
    decreases e.len(),
{
    let ts = seq![n] + e.map_values(|p: (Seq<char>, Seq<char>)| pair_text(p));
    if e.len() == 0 {
        assert(ts =~= seq![n]);
        assert(n + params_text(e) =~= n);
    } else {
        lemma_params_join(n, e.drop_last());
        assert(ts.drop_last() =~= seq![n] + e.drop_last().map_values(|p: (Seq<char>, Seq<char>)| pair_text(p)));
        assert(n + params_text(e) =~= (n + params_text(e.drop_last())).push(';') + pair_text(e.last()));
    }
}

/// A character of a written line other than the `:` after the parameters.
pub open spec fn line_char(c: char) -> bool {
    plain(c) || c == ';' || c == '='
}

/// Every character of a joined text is one of the pieces' or the separator.
proof fn lemma_join_chars(parts: Seq<Seq<char>>, sep: char, p: spec_fn(char) -> bool)
    requires
        p(sep),
        forall|i: int, j: int| 0 <= i < parts.len() && 0 <= j < parts[i].len() ==> p(#[trigger] parts[i][j]),
    ensures
        forall|k: int| 0 <= k < join(parts, sep).len() ==> p(#[trigger] join(parts, sep)[k]),
    decreases parts.len(),
{
    if parts.len() == 1 {
        assert forall|k: int| 0 <= k < join(parts, sep).len() implies p(#[trigger] join(parts, sep)[k]) by {
            assert(join(parts, sep)[k] == parts[0][k]);
        }
    } else if parts.len() > 1 {
        let init = parts.drop_last();
        assert forall|i: int, j: int| 0 <= i < init.len() && 0 <= j < init[i].len() implies p(#[trigger] init[i][j]) by {
            assert(init[i] == parts[i]);
        }
        lemma_join_chars(init, sep, p);
        let h = join(init, sep);
        let last = parts.last();
        assert forall|k: int| 0 <= k < join(parts, sep).len() implies p(#[trigger] join(parts, sep)[k]) by {
            if k < h.len() {
                assert(join(parts, sep)[k] == h[k]);
            } else if k == h.len() {
            } else {
                assert(join(parts, sep)[k] == last[k - h.len() - 1]);
                assert(p(parts[parts.len() - 1][k - h.len() - 1]));
            }
        }
    }
}

proof fn lemma_pair_chars(e: Entries)
    requires
        good_entries(e),
    ensures
        forall|i: int, j: int| 0 <= i < e.len() && 0 <= j < pair_text(e[i]).len() ==> #[trigger] pair_text(e[i])[j] != ';' && plain(pair_text(e[i])[j]) || pair_text(e[i])[j] == '=',
{
    assert forall|i: int, j: int| 0 <= i < e.len() && 0 <= j < pair_text(e[i]).len() implies #[trigger] pair_text(e[i])[j] != ';' && plain(pair_text(e[i])[j]) || pair_text(e[i])[j] == '=' by {
        let k = e[i].0;
        let v = e[i].1;
        assert(good_key(e[i].0) && plain_text(e[i].1));
        if j < k.len() {
            assert(pair_text(e[i])[j] == k[j]);
            assert(plain(k[j]));
        } else if j > k.len() {
            assert(pair_text(e[i])[j] == v[j - k.len() - 1]);
            assert(plain(v[j - k.len() - 1]));
        }
    }
}

/// The pairs joined with `;` read back as the pairs.
proof fn lemma_parse_pairs_value(e: Entries)
    requires
        good_entries(e),
    ensures
        parse_value(value_text(Parsed::Pairs(e))) == Ok::<Parsed, Fault>(Parsed::Pairs(e)),
        forall|k: int| 0 <= k < value_text(Parsed::Pairs(e)).len() ==> line_char(#[trigger] value_text(Parsed::Pairs(e))[k]),
{
    let ts = e.map_values(|p: (Seq<char>, Seq<char>)| pair_text(p));
    lemma_pair_chars(e);
    assert forall|i: int, j: int| 0 <= i < ts.len() && 0 <= j < ts[i].len() implies line_char(#[trigger] ts[i][j]) by {
        assert(ts[i] == pair_text(e[i]));
    }
    lemma_join_chars(ts, ';', |c: char| line_char(c));
    lemma_scan_pairs(e);
    if e.len() == 0 {
        assert(ts =~= Seq::<Seq<char>>::empty());
        let b = value_text(Parsed::Pairs(e));
        assert(b =~= Seq::<char>::empty());
        assert(split(b, ';') =~= seq![Seq::<char>::empty()]);
        assert(seq![Seq::<char>::empty()].drop_last() =~= Seq::<Seq<char>>::empty());
        lemma_trim_no_space(Seq::<char>::empty());
        assert(e =~= Seq::<(Seq<char>, Seq<char>)>::empty());
    } else {
        assert forall|i: int, j: int| 0 <= i < ts.len() && 0 <= j < ts[i].len() implies ts[i][j] != ';' by {
            assert(ts[i] == pair_text(e[i]));
        }
        lemma_split_join(ts, ';');
    }
}

/// A good line, written out, reads back as itself.
pub proof fn lemma_parse_line_text(n: Seq<char>, e: Entries, v: Parsed)
    requires
        good_line(n, e, v),
    ensures
        parse_line(line_text(n, e, v)) == Ok::<_, Fault>((n, e, v)),
        no_space(line_text(n, e, v)),
        line_text(n, e, v).len() > 0,
        !line_text(n, e, v).contains('\n'),
{
    let ts = e.map_values(|p: (Seq<char>, Seq<char>)| pair_text(p));
    let segs = seq![n] + ts;
    let a = n + params_text(e);
    let b = value_text(v);
    lemma_params_join(n, e);
    lemma_pair_chars(e);
    assert forall|i: int, j: int| 0 <= i < segs.len() && 0 <= j < segs[i].len() implies line_char(#[trigger] segs[i][j]) && segs[i][j] != ';' by {
        if i == 0 {
            assert(segs[i] == n);
            assert(plain(n[j]));
        } else {
            assert(segs[i] == pair_text(e[i - 1]));
        }
    }
    lemma_join_chars(segs, ';', |c: char| line_char(c));
    assert(forall|k: int| 0 <= k < a.len() ==> line_char(#[trigger] a[k]));
    lemma_split_join(segs, ';');
    match v {
        Parsed::Bare(t) => {
            assert(forall|k: int| 0 <= k < b.len() ==> line_char(#[trigger] b[k])) by {
                assert forall|k: int| 0 <= k < b.len() implies line_char(#[trigger] b[k]) by {
                    assert(plain(t[k]));
                }
            }
            assert forall|j: int| 0 <= j < t.len() implies t[j] != ';' by {
                assert(plain(t[j]));
            }
            lemma_split_piece(t, ';');
            assert(seq![t].drop_last() =~= Seq::<Seq<char>>::empty());
            assert forall|j: int| 0 <= j < t.len() implies t[j] != '=' by {
                assert(plain(t[j]));
            }
            lemma_split_piece(t, '=');
            assert(no_space(t)) by {
                assert forall|j: int| 0 <= j < t.len() implies !is_space(#[trigger] t[j]) by {
                    assert(plain(t[j]));
                }
            }
            lemma_trim_no_space(t);
            assert(scan(Seq::<Seq<char>>::empty()) == Ok::<Scan, Fault>(Scan::Nothing));
            assert(scan(seq![t]) == scan_step(Scan::Nothing, seq![t].last()));
            assert(seq![t].last() == t);
            assert(split(t, '=').len() == 1);
            assert(scan_step(Scan::Nothing, t) == Ok::<Scan, Fault>(Scan::Bare(t)));
            assert(parse_value(b) == Ok::<Parsed, Fault>(Parsed::Bare(t)));
        },
        Parsed::Pairs(e2) => {
            lemma_parse_pairs_value(e2);
        },
    }
    let line = line_text(n, e, v);
    let parts = seq![a, b];
    assert(parts.drop_last() =~= seq![a]);
    assert(join(seq![a], ':') == a);
    assert(join(parts, ':') =~= line);
    assert forall|i: int, j: int| 0 <= i < parts.len() && 0 <= j < parts[i].len() implies parts[i][j] != ':' by {
        if i == 0 {
            assert(line_char(a[j]));
        } else {
            assert(line_char(b[j]));
        }
    }
    lemma_split_join(parts, ':');
    assert(no_space(line)) by {
        assert forall|k: int| 0 <= k < line.len() implies !is_space(#[trigger] line[k]) by {
            if k < a.len() {
                assert(line[k] == a[k]);
                assert(line_char(a[k]));
            } else if k > a.len() {
                assert(line[k] == b[k - a.len() - 1]);
                assert(line_char(b[k - a.len() - 1]));
            }
        }
    }
    lemma_trim_no_space(line);
    assert(line[0] == n[0]);
    assert(!line.contains('\n'));
    assert(no_space(a)) by {
        assert forall|k: int| 0 <= k < a.len() implies !is_space(#[trigger] a[k]) by {
            assert(line_char(a[k]));
        }
    }
    lemma_trim_no_space(a);
    assert(no_space(b)) by {
        assert forall|k: int| 0 <= k < b.len() implies !is_space(#[trigger] b[k]) by {
            assert(line_char(b[k]));
        }
    }
    lemma_trim_no_space(b);
    assert(no_space(n)) by {
        assert forall|k: int| 0 <= k < n.len() implies !is_space(#[trigger] n[k]) by {
            assert(plain(n[k]));
        }
    }
    lemma_trim_no_space(n);
    assert(segs[0] == n);
    assert(segs.drop_first() =~= ts);
    lemma_scan_pairs(e);
    if e.len() == 0 {
        assert(e =~= Seq::<(Seq<char>, Seq<char>)>::empty());
    }
}

pub open spec fn line_texts(lines: Seq<LineModel>) -> Seq<Seq<char>> {
    lines.map_values(|l: LineModel| line_text(l.0, l.1, l.2))
}

pub open spec fn good_lines(lines: Seq<LineModel>) -> bool {
    forall|i: int| 0 <= i < lines.len() ==> good_line(#[trigger] lines[i].0, lines[i].1, lines[i].2)
}

proof fn lemma_parse_lines_texts(lines: Seq<LineModel>)
    requires
        good_lines(lines),
    ensures
        parse_lines(line_texts(lines)) == Ok::<_, Fault>(lines),
    decreases lines.len(),
{
    if lines.len() > 0 {
        let init = lines.drop_last();
        assert(good_lines(init)) by {
            assert forall|i: int| 0 <= i < init.len() implies good_line(#[trigger] init[i].0, init[i].1, init[i].2) by {
                assert(init[i] == lines[i]);
            }
        }
        lemma_parse_lines_texts(init);
        assert(line_texts(lines).drop_last() =~= line_texts(init));
        let l = lines.last();
        assert(good_line(lines[lines.len() - 1].0, lines[lines.len() - 1].1, lines[lines.len() - 1].2));
        lemma_parse_line_text(l.0, l.1, l.2);
        lemma_trim_no_space(line_text(l.0, l.1, l.2));
        assert(init.push(l) =~= lines);
    } else {
        assert(line_texts(lines) =~= Seq::<Seq<char>>::empty());
        assert(lines =~= Seq::<LineModel>::empty());
    }
}

/// Good lines, joined with `\n`, read back as themselves.
pub proof fn lemma_parse_text_lines(lines: Seq<LineModel>)
    requires
        lines.len() >= 1,
        good_lines(lines),
    ensures
        parse_text(join(line_texts(lines), '\n')) == Ok::<_, Fault>(lines),
{
    let ts = line_texts(lines);
    assert forall|i: int, j: int| 0 <= i < ts.len() && 0 <= j < ts[i].len() implies ts[i][j] != '\n' by {
        let l = lines[i];
        assert(good_line(lines[i].0, lines[i].1, lines[i].2));
        lemma_parse_line_text(l.0, l.1, l.2);
        assert(ts[i] == line_text(l.0, l.1, l.2));
        if ts[i][j] == '\n' {
            assert(ts[i].contains('\n'));
        }
    }
    lemma_split_join(ts, '\n');
    lemma_parse_lines_texts(lines);
}

/// Each digit is plain.
proof fn lemma_digits_plain(s: Seq<char>)
    requires
        all_digits(s),
    ensures
        plain_text(s),
{
    assert forall|i: int| 0 <= i < s.len() implies plain(#[trigger] s[i]) by {
        assert(is_digit(s[i]));
    }
}

/// The text of a date or date-time is plain and not empty.
pub proof fn lemma_datetime_plain(d: DateTime)
    ensures
        plain_text(d.text()),
        d.text().len() > 0,
        !d.text().contains(','),
{
    crate::datetime::lemma_padded_digits(d.year as nat, 4);
    crate::datetime::lemma_padded_digits(d.month as nat, 2);
    crate::datetime::lemma_padded_digits(d.day as nat, 2);
    let y = padded(d.year as nat, 4);
    let m = padded(d.month as nat, 2);
    let dd = padded(d.day as nat, 2);
    lemma_digits_plain(y);
    lemma_digits_plain(m);
    lemma_digits_plain(dd);
    let date = y + m + dd;
    assert(plain_text(date)) by {
        assert forall|i: int| 0 <= i < date.len() implies plain(#[trigger] date[i]) by {
            if i < y.len() {
                assert(date[i] == y[i]);
            } else if i < y.len() + m.len() {
                assert(date[i] == m[i - y.len()]);
            } else {
                assert(date[i] == dd[i - y.len() - m.len()]);
            }
        }
    }
    match d.time {
        None => {},
        Some(t) => {
            crate::datetime::lemma_padded_digits(t.hour as nat, 2);
            crate::datetime::lemma_padded_digits(t.minute as nat, 2);
            crate::datetime::lemma_padded_digits(t.second as nat, 2);
            let h = padded(t.hour as nat, 2);
            let mi = padded(t.minute as nat, 2);
            let se = padded(t.second as nat, 2);
            lemma_digits_plain(h);
            lemma_digits_plain(mi);
            lemma_digits_plain(se);
            let z = if t.utc() {
                seq!['Z']
            } else {
                Seq::<char>::empty()
            };
            let full = date + seq!['T'] + h + mi + se + z;
            assert(d.text() == full);
            assert forall|i: int| 0 <= i < full.len() implies plain(#[trigger] full[i]) by {
                let a = date.len() as int;
                if i < a {
                    assert(full[i] == date[i]);
                } else if i == a {
                } else if i < a + 1 + h.len() {
                    assert(full[i] == h[i - a - 1]);
                } else if i < a + 1 + h.len() + mi.len() {
                    assert(full[i] == mi[i - a - 1 - h.len()]);
                } else if i < a + 1 + h.len() + mi.len() + se.len() {
                    assert(full[i] == se[i - a - 1 - h.len() - mi.len()]);
                } else {
                    assert(full[i] == z[i - a - 1 - h.len() - mi.len() - se.len()]);
                }
            }
        },
    }
    assert(d.text().len() > 0);
    if d.text().contains(',') {
        let k = choose|k: int| 0 <= k < d.text().len() && d.text()[k] == ',';
        assert(plain(d.text()[k]));
        assert(false) by {
            assert(d.text()[k] == ',');
        }
    }
}

proof fn lemma_value_type_code(vt: ValueType)
    ensures
        good_key(vt.code()),
        ValueType::from_code(vt.code()) == Some(vt),
{
    crate::value_type::lemma_value_type_code(vt);
    assert(upper(vt.code()) =~= vt.code());
    assert(is_ascii_text(vt.code()));
    assert forall|i: int| 0 <= i < vt.code().len() implies plain(#[trigger] vt.code()[i]) by {
        match vt {
            ValueType::Date => {},
            ValueType::DateTime => {},
        }
    }
}

proof fn lemma_literal_keys()
    ensures
        good_key(key_tzid()),
        good_key(key_value()),
        good_key(name_dtstart()),
        good_key(name_exdate()),
        good_key(name_rdate()),
        key_tzid() != key_value(),
{
    assert(upper(key_tzid()) =~= key_tzid());
    assert(is_ascii_text(key_tzid()));
    assert(upper(key_value()) =~= key_value());
    assert(is_ascii_text(key_value()));
    assert(upper(name_dtstart()) =~= name_dtstart());
    assert(is_ascii_text(name_dtstart()));
    assert(upper(name_exdate()) =~= name_exdate());
    assert(is_ascii_text(name_exdate()));
    assert(upper(name_rdate()) =~= name_rdate());
    assert(is_ascii_text(name_rdate()));
    assert(key_tzid()[0] != key_value()[0]);
    assert forall|i: int| 0 <= i < key_tzid().len() implies plain(#[trigger] key_tzid()[i]) by {}
    assert forall|i: int| 0 <= i < key_value().len() implies plain(#[trigger] key_value()[i]) by {}
    assert forall|i: int| 0 <= i < name_dtstart().len() implies plain(#[trigger] name_dtstart()[i]) by {}
    assert forall|i: int| 0 <= i < name_exdate().len() implies plain(#[trigger] name_exdate()[i]) by {}
    assert forall|i: int| 0 <= i < name_rdate().len() implies plain(#[trigger] name_rdate()[i]) by {}
}

/// A zone name that can be written into a line.
pub open spec fn good_zone(tz: Option<Seq<char>>) -> bool {
    tz matches Some(n) ==> n.len() > 0 && plain_text(n)
}

/// The `TZID` and `VALUE` pairs are good and read back.
proof fn lemma_zone_and_type(tz: Option<Seq<char>>, vt: Option<ValueType>)
    requires
        good_zone(tz),
    ensures
        good_entries(zone_and_type_entries(tz, vt)),
        lookup(zone_and_type_entries(tz, vt), key_tzid()) == tz,
        declared_type(zone_and_type_entries(tz, vt)) == Some(vt),
{
    lemma_literal_keys();
    let e = zone_and_type_entries(tz, vt);
    match vt {
        Some(x) => {
            lemma_value_type_code(x);
        },
        None => {},
    }
    match tz {
        Some(n) => {
            lemma_key_index_at(e, key_tzid(), 0);
            match vt {
                Some(x) => {
                    lemma_key_index_at(e, key_value(), 1);
                },
                None => {
                    lemma_key_index_absent(e, key_value());
                },
            }
        },
        None => {
            lemma_key_index_absent(e, key_tzid());
            match vt {
                Some(x) => {
                    lemma_key_index_at(e, key_value(), 0);
                },
                None => {
                    lemma_key_index_absent(e, key_value());
                },
            }
        },
    }
}

/// A start anchor with a writable value and a good zone reads back as what
/// its line states of it.
pub proof fn lemma_start_line(s: StartModel)
    requires
        valid_start(written_start(s)),
        s.0.writable(),
        good_zone(written_start(s).1),
    ensures
        good_line(start_line(s).0, start_line(s).1, start_line(s).2),
        start_of(start_line(s)) == Some(written_start(s)),
{
    lemma_literal_keys();
    lemma_zone_and_type(written_start(s).1, written_start(s).2);
    lemma_datetime_plain(s.0);
    lemma_datetime_text(s.0);
}

/// The values written out and joined with `,` read back, one each.
proof fn lemma_dates_text(values: Seq<DateTime>)
    requires
        values.len() > 0,
        forall|i: int| 0 <= i < values.len() ==> (#[trigger] values[i]).writable(),
    ensures
        dates_of(split(dates_text(values), ',')) == Some(values),
{
    let ts = values.map_values(|d: DateTime| d.text());
    assert forall|i: int, j: int| 0 <= i < ts.len() && 0 <= j < ts[i].len() implies ts[i][j] != ',' by {
        lemma_datetime_plain(values[i]);
        assert(ts[i] == values[i].text());
        if ts[i][j] == ',' {
            assert(ts[i].contains(','));
        }
    }
    lemma_split_join(ts, ',');
    lemma_dates_of_texts(values);
}

proof fn lemma_dates_of_texts(values: Seq<DateTime>)
    requires
        forall|i: int| 0 <= i < values.len() ==> (#[trigger] values[i]).writable(),
    ensures
        dates_of(values.map_values(|d: DateTime| d.text())) == Some(values),
    decreases values.len(),
{
    if values.len() > 0 {
        let init = values.drop_last();
        assert forall|i: int| 0 <= i < init.len() implies (#[trigger] init[i]).writable() by {
            assert(init[i] == values[i]);
        }
        lemma_dates_of_texts(init);
        assert(values.map_values(|d: DateTime| d.text()).drop_last() =~= init.map_values(|d: DateTime| d.text()));
        assert(values[values.len() - 1].writable());
        lemma_datetime_text(values.last());
        assert(init.push(values.last()) =~= values);
    } else {
        assert(values.map_values(|d: DateTime| d.text()) =~= Seq::<Seq<char>>::empty());
        assert(values =~= Seq::<DateTime>::empty());
    }
}

proof fn lemma_dates_text_plain(values: Seq<DateTime>)
    requires
        values.len() > 0,
    ensures
        plain_text(dates_text(values)),
        dates_text(values).len() > 0,
{
    let ts = values.map_values(|d: DateTime| d.text());
    assert forall|i: int, j: int| 0 <= i < ts.len() && 0 <= j < ts[i].len() implies plain(#[trigger] ts[i][j]) by {
        lemma_datetime_plain(values[i]);
        assert(ts[i] == values[i].text());
    }
    lemma_join_chars(ts, ',', |c: char| plain(c));
    lemma_datetime_plain(values[0]);
    lemma_join_len(ts, ',');
}

proof fn lemma_join_len(parts: Seq<Seq<char>>, sep: char)
    requires
        parts.len() > 0,
        parts[0].len() > 0,
    ensures
        join(parts, sep).len() > 0,
    decreases parts.len(),
{
    if parts.len() > 1 {
        lemma_join_len(parts.drop_last(), sep);
    }
}

/// A valid, non-empty list with writable values and a good zone reads back.
pub proof fn lemma_list_line(name: Seq<char>, l: ListModel)
    requires
        valid_list(l),
        l.0.len() > 0,
        forall|i: int| 0 <= i < l.0.len() ==> (#[trigger] l.0[i]).writable(),
        good_zone(l.1),
        good_key(name),
    ensures
        good_line(list_line(name, l).0, list_line(name, l).1, list_line(name, l).2),
        list_of(list_line(name, l)) == Some(l),
{
    lemma_zone_and_type(l.1, l.2);
    lemma_dates_text(l.0);
    lemma_dates_text_plain(l.0);
}


/// The keys of a pattern's pairs, in the order they are written.
pub open spec fn rule_keys() -> Seq<Seq<char>> {
    seq![key_freq(), key_interval(), key_count(), key_until(), key_byhour(), key_byminute(), key_bysecond(), key_bymonthday(), key_byyearday(), key_bysetpos(), key_bymonth(), key_byweekno(), key_byday(), key_wkst()]
}

/// The pattern keys are good and differ from each other.
proof fn lemma_rule_keys()
    ensures
        rule_keys().len() == 14,
        forall|i: int| 0 <= i < rule_keys().len() ==> good_key(#[trigger] rule_keys()[i]),
        forall|i: int, j: int| 0 <= i < j < rule_keys().len() ==> rule_keys()[i] != rule_keys()[j],
{
    let ks = rule_keys();
    assert(ks[0] == key_freq());
    assert(ks[1] == key_interval());
    assert(ks[2] == key_count());
    assert(ks[3] == key_until());
    assert(ks[4] == key_byhour());
    assert(ks[5] == key_byminute());
    assert(ks[6] == key_bysecond());
    assert(ks[7] == key_bymonthday());
    assert(ks[8] == key_byyearday());
    assert(ks[9] == key_bysetpos());
    assert(ks[10] == key_bymonth());
    assert(ks[11] == key_byweekno());
    assert(ks[12] == key_byday());
    assert(ks[13] == key_wkst());
    assert(upper(key_freq()) =~= key_freq());
    assert(is_ascii_text(key_freq()));
    assert forall|j: int| 0 <= j < key_freq().len() implies plain(#[trigger] key_freq()[j]) by {}
    assert(upper(key_interval()) =~= key_interval());
    assert(is_ascii_text(key_interval()));
    assert forall|j: int| 0 <= j < key_interval().len() implies plain(#[trigger] key_interval()[j]) by {}
    assert(upper(key_count()) =~= key_count());
    assert(is_ascii_text(key_count()));
    assert forall|j: int| 0 <= j < key_count().len() implies plain(#[trigger] key_count()[j]) by {}
    assert(upper(key_until()) =~= key_until());
    assert(is_ascii_text(key_until()));
    assert forall|j: int| 0 <= j < key_until().len() implies plain(#[trigger] key_until()[j]) by {}
    assert(upper(key_byhour()) =~= key_byhour());
    assert(is_ascii_text(key_byhour()));
    assert forall|j: int| 0 <= j < key_byhour().len() implies plain(#[trigger] key_byhour()[j]) by {}
    assert(upper(key_byminute()) =~= key_byminute());
    assert(is_ascii_text(key_byminute()));
    assert forall|j: int| 0 <= j < key_byminute().len() implies plain(#[trigger] key_byminute()[j]) by {}
    assert(upper(key_bysecond()) =~= key_bysecond());
    assert(is_ascii_text(key_bysecond()));
    assert forall|j: int| 0 <= j < key_bysecond().len() implies plain(#[trigger] key_bysecond()[j]) by {}
    assert(upper(key_bymonthday()) =~= key_bymonthday());
    assert(is_ascii_text(key_bymonthday()));
    assert forall|j: int| 0 <= j < key_bymonthday().len() implies plain(#[trigger] key_bymonthday()[j]) by {}
    assert(upper(key_byyearday()) =~= key_byyearday());
    assert(is_ascii_text(key_byyearday()));
    assert forall|j: int| 0 <= j < key_byyearday().len() implies plain(#[trigger] key_byyearday()[j]) by {}
    assert(upper(key_bysetpos()) =~= key_bysetpos());
    assert(is_ascii_text(key_bysetpos()));
    assert forall|j: int| 0 <= j < key_bysetpos().len() implies plain(#[trigger] key_bysetpos()[j]) by {}
    assert(upper(key_bymonth()) =~= key_bymonth());
    assert(is_ascii_text(key_bymonth()));
    assert forall|j: int| 0 <= j < key_bymonth().len() implies plain(#[trigger] key_bymonth()[j]) by {}
    assert(upper(key_byweekno()) =~= key_byweekno());
    assert(is_ascii_text(key_byweekno()));
    assert forall|j: int| 0 <= j < key_byweekno().len() implies plain(#[trigger] key_byweekno()[j]) by {}
    assert(upper(key_byday()) =~= key_byday());
    assert(is_ascii_text(key_byday()));
    assert forall|j: int| 0 <= j < key_byday().len() implies plain(#[trigger] key_byday()[j]) by {}
    assert(upper(key_wkst()) =~= key_wkst());
    assert(is_ascii_text(key_wkst()));
    assert forall|j: int| 0 <= j < key_wkst().len() implies plain(#[trigger] key_wkst()[j]) by {}
    assert(key_freq().len() != key_interval().len());
    assert(key_freq().len() != key_count().len());
    assert(key_freq().len() != key_until().len());
    assert(key_freq().len() != key_byhour().len());
    assert(key_freq().len() != key_byminute().len());
    assert(key_freq().len() != key_bysecond().len());
    assert(key_freq().len() != key_bymonthday().len());
    assert(key_freq().len() != key_byyearday().len());
    assert(key_freq().len() != key_bysetpos().len());
    assert(key_freq().len() != key_bymonth().len());
    assert(key_freq().len() != key_byweekno().len());
    assert(key_freq().len() != key_byday().len());
    assert(key_freq()[0] != key_wkst()[0]);
    assert(key_interval().len() != key_count().len());
    assert(key_interval().len() != key_until().len());
    assert(key_interval().len() != key_byhour().len());
    assert(key_interval()[0] != key_byminute()[0]);
    assert(key_interval()[0] != key_bysecond()[0]);
    assert(key_interval().len() != key_bymonthday().len());
    assert(key_interval().len() != key_byyearday().len());
    assert(key_interval()[0] != key_bysetpos()[0]);
    assert(key_interval().len() != key_bymonth().len());
    assert(key_interval()[0] != key_byweekno()[0]);
    assert(key_interval().len() != key_byday().len());
    assert(key_interval().len() != key_wkst().len());
    assert(key_count()[0] != key_until()[0]);
    assert(key_count().len() != key_byhour().len());
    assert(key_count().len() != key_byminute().len());
    assert(key_count().len() != key_bysecond().len());
    assert(key_count().len() != key_bymonthday().len());
    assert(key_count().len() != key_byyearday().len());
    assert(key_count().len() != key_bysetpos().len());
    assert(key_count().len() != key_bymonth().len());
    assert(key_count().len() != key_byweekno().len());
    assert(key_count()[0] != key_byday()[0]);
    assert(key_count().len() != key_wkst().len());
    assert(key_until().len() != key_byhour().len());
    assert(key_until().len() != key_byminute().len());
    assert(key_until().len() != key_bysecond().len());
    assert(key_until().len() != key_bymonthday().len());
    assert(key_until().len() != key_byyearday().len());
    assert(key_until().len() != key_bysetpos().len());
    assert(key_until().len() != key_bymonth().len());
    assert(key_until().len() != key_byweekno().len());
    assert(key_until()[0] != key_byday()[0]);
    assert(key_until().len() != key_wkst().len());
    assert(key_byhour().len() != key_byminute().len());
    assert(key_byhour().len() != key_bysecond().len());
    assert(key_byhour().len() != key_bymonthday().len());
    assert(key_byhour().len() != key_byyearday().len());
    assert(key_byhour().len() != key_bysetpos().len());
    assert(key_byhour().len() != key_bymonth().len());
    assert(key_byhour().len() != key_byweekno().len());
    assert(key_byhour().len() != key_byday().len());
    assert(key_byhour().len() != key_wkst().len());
    assert(key_byminute()[2] != key_bysecond()[2]);
    assert(key_byminute().len() != key_bymonthday().len());
    assert(key_byminute().len() != key_byyearday().len());
    assert(key_byminute()[2] != key_bysetpos()[2]);
    assert(key_byminute().len() != key_bymonth().len());
    assert(key_byminute()[2] != key_byweekno()[2]);
    assert(key_byminute().len() != key_byday().len());
    assert(key_byminute().len() != key_wkst().len());
    assert(key_bysecond().len() != key_bymonthday().len());
    assert(key_bysecond().len() != key_byyearday().len());
    assert(key_bysecond()[4] != key_bysetpos()[4]);
    assert(key_bysecond().len() != key_bymonth().len());
    assert(key_bysecond()[2] != key_byweekno()[2]);
    assert(key_bysecond().len() != key_byday().len());
    assert(key_bysecond().len() != key_wkst().len());
    assert(key_bymonthday().len() != key_byyearday().len());
    assert(key_bymonthday().len() != key_bysetpos().len());
    assert(key_bymonthday().len() != key_bymonth().len());
    assert(key_bymonthday().len() != key_byweekno().len());
    assert(key_bymonthday().len() != key_byday().len());
    assert(key_bymonthday().len() != key_wkst().len());
    assert(key_byyearday().len() != key_bysetpos().len());
    assert(key_byyearday().len() != key_bymonth().len());
    assert(key_byyearday().len() != key_byweekno().len());
    assert(key_byyearday().len() != key_byday().len());
    assert(key_byyearday().len() != key_wkst().len());
    assert(key_bysetpos().len() != key_bymonth().len());
    assert(key_bysetpos()[2] != key_byweekno()[2]);
    assert(key_bysetpos().len() != key_byday().len());
    assert(key_bysetpos().len() != key_wkst().len());
    assert(key_bymonth().len() != key_byweekno().len());
    assert(key_bymonth().len() != key_byday().len());
    assert(key_bymonth().len() != key_wkst().len());
    assert(key_byweekno().len() != key_byday().len());
    assert(key_byweekno().len() != key_wkst().len());
    assert(key_byday().len() != key_wkst().len());
}

/// A character that may stand in an element of a `,`-separated list.
pub open spec fn item_char(c: char) -> bool {
    plain(c) && c != ','
}

pub open spec fn item_text(s: Seq<char>) -> bool {
    s.len() > 0 && forall|i: int| 0 <= i < s.len() ==> item_char(#[trigger] s[i])
}

proof fn lemma_item_text(s: Seq<char>)
    requires
        item_text(s),
    ensures
        plain_text(s),
        !s.contains(','),
{
    if s.contains(',') {
        let k = choose|k: int| 0 <= k < s.len() && s[k] == ',';
        assert(item_char(s[k]));
    }
}

proof fn lemma_int_item(n: int)
    ensures
        item_text(int_text(n)),
{
    lemma_int_text_chars(n);
    assert forall|i: int| 0 <= i < int_text(n).len() implies item_char(#[trigger] int_text(n)[i]) by {
        assert(is_digit(int_text(n)[i]) || int_text(n)[i] == '-');
    }
}

proof fn lemma_weekday_item(d: Weekday)
    ensures
        item_text(d.code()),
        Weekday::from_code(d.code()) == Some(d),
{
    crate::weekday::lemma_weekday_code(d);
    assert forall|i: int| 0 <= i < d.code().len() implies item_char(#[trigger] d.code()[i]) by {
        match d {
            Weekday::Monday => {},
            Weekday::Tuesday => {},
            Weekday::Wednesday => {},
            Weekday::Thursday => {},
            Weekday::Friday => {},
            Weekday::Saturday => {},
            Weekday::Sunday => {},
        }
    }
}

proof fn lemma_frequency_item(f: Frequency)
    ensures
        item_text(f.code()),
        Frequency::from_code(f.code()) == Some(f),
{
    crate::frequency::lemma_frequency_code(f);
    assert forall|i: int| 0 <= i < f.code().len() implies item_char(#[trigger] f.code()[i]) by {
        match f {
            Frequency::Yearly => {},
            Frequency::Monthly => {},
            Frequency::Weekly => {},
            Frequency::Daily => {},
            Frequency::Hourly => {},
            Frequency::Minutely => {},
            Frequency::Secondly => {},
        }
    }
}

proof fn lemma_month_item(m: Month)
    ensures
        item_text(m.code()),
        Month::from_code(m.code()) == Some(m),
{
    crate::month::lemma_month_code(m);
    assert forall|i: int| 0 <= i < m.code().len() implies item_char(#[trigger] m.code()[i]) by {
        match m {
            Month::January => {},
            Month::February => {},
            Month::March => {},
            Month::April => {},
            Month::May => {},
            Month::June => {},
            Month::July => {},
            Month::August => {},
            Month::September => {},
            Month::October => {},
            Month::November => {},
            Month::December => {},
        }
    }
}

proof fn lemma_n_weekday_item(d: NWeekday)
    ensures
        item_text(d.code()),
        NWeekday::from_code(d.code()) == Some(d),
{
    crate::n_weekday::lemma_n_weekday_code(d);
    lemma_weekday_item(d.weekday);
    match d.n {
        Some(k) => {
            lemma_int_item(k as int);
            let a = int_text(k as int);
            let b = d.weekday.code();
            assert forall|i: int| 0 <= i < d.code().len() implies item_char(#[trigger] d.code()[i]) by {
                if i < a.len() {
                    assert(d.code()[i] == a[i]);
                } else {
                    assert(d.code()[i] == b[i - a.len()]);
                }
            }
        },
        None => {},
    }
}

/// A list field holding `texts`, joined with `,`, where there are any.
pub open spec fn list_opt(texts: Seq<Seq<char>>) -> Option<Seq<char>> {
    if texts.len() == 0 {
        None
    } else {
        Some(join(texts, ','))
    }
}

/// Elements written as items and joined with `,` read back, one each.
proof fn lemma_list_field<X>(xs: Seq<X>, text: spec_fn(X) -> Seq<char>, f: spec_fn(Seq<char>) -> Option<X>)
    requires
        forall|i: int| 0 <= i < xs.len() ==> f(#[trigger] text(xs[i])) == Some(xs[i]) && item_text(text(xs[i])),
    ensures
        list_field(list_opt(xs.map_values(text)), f) == Some(xs),
        list_opt(xs.map_values(text)) matches Some(t) ==> plain_text(t),
{
    let ts = xs.map_values(text);
    if xs.len() == 0 {
        assert(xs =~= Seq::<X>::empty());
    } else {
        assert forall|i: int, j: int| 0 <= i < ts.len() && 0 <= j < ts[i].len() implies ts[i][j] != ',' && plain(#[trigger] ts[i][j]) by {
            assert(ts[i] == text(xs[i]));
            assert(item_text(text(xs[i])));
            assert(item_char(ts[i][j]));
        }
        lemma_split_join(ts, ',');
        lemma_items_texts(xs, text, f);
        lemma_join_chars(ts, ',', |c: char| plain(c));
    }
}

proof fn lemma_items_texts<X>(xs: Seq<X>, text: spec_fn(X) -> Seq<char>, f: spec_fn(Seq<char>) -> Option<X>)
    requires
        forall|i: int| 0 <= i < xs.len() ==> f(#[trigger] text(xs[i])) == Some(xs[i]),
    ensures
        items_of(xs.map_values(text), f) == Some(xs),
    decreases xs.len(),
{
    if xs.len() > 0 {
        let init = xs.drop_last();
        assert forall|i: int| 0 <= i < init.len() implies f(#[trigger] text(init[i])) == Some(init[i]) by {
            assert(init[i] == xs[i]);
        }
        lemma_items_texts(init, text, f);
        assert(xs.map_values(text).drop_last() =~= init.map_values(text));
        assert(f(text(xs[xs.len() - 1])) == Some(xs[xs.len() - 1]));
        assert(init.push(xs.last()) =~= xs);
    } else {
        assert(xs.map_values(text) =~= Seq::<Seq<char>>::empty());
        assert(xs =~= Seq::<X>::empty());
    }
}

/// A key and, where it is written, the text under it.
pub type Field = (Seq<char>, Option<Seq<char>>);

/// The pairs of the first `n` fields, inserted in order; absent fields are left out.
pub open spec fn fold_fields(fs: Seq<Field>, n: nat) -> Entries
    decreases n,
{
    if n == 0 || n > fs.len() {
        Seq::empty()
    } else {
        opt_insert(fold_fields(fs, (n - 1) as nat), fs[n - 1].0, fs[n - 1].1)
    }
}

pub open spec fn distinct_keys(fs: Seq<Field>) -> bool {
    forall|i: int, j: int| 0 <= i < j < fs.len() ==> fs[i].0 != fs[j].0
}

/// Each field's key holds the field's text; other keys are absent.
proof fn lemma_fold_lookup(fs: Seq<Field>, n: nat, k: Seq<char>)
    requires
        n <= fs.len(),
        distinct_keys(fs),
    ensures
        forall|i: int| 0 <= i < n && fs[i].0 == k ==> lookup(fold_fields(fs, n), k) == fs[i].1,
        (forall|i: int| 0 <= i < n ==> fs[i].0 != k) ==> lookup(fold_fields(fs, n), k) is None,
    decreases n,
{
    if n == 0 {
        assert(key_index(Seq::<(Seq<char>, Seq<char>)>::empty(), k) == -1);
    } else {
        let m = (n - 1) as nat;
        lemma_fold_lookup(fs, m, k);
        let prev = fold_fields(fs, m);
        let last = fs[m as int];
        if last.0 == k {
            match last.1 {
                Some(v) => lemma_lookup_insert_same(prev, k, v),
                None => {},
            }
        } else {
            match last.1 {
                Some(v) => lemma_lookup_insert_other(prev, last.0, v, k),
                None => {},
            }
        }
    }
}

/// Good keys and plain texts make good pairs.
proof fn lemma_fold_good(fs: Seq<Field>, n: nat)
    requires
        n <= fs.len(),
        distinct_keys(fs),
        forall|i: int| 0 <= i < fs.len() ==> good_key(#[trigger] fs[i].0) && (fs[i].1 matches Some(v) ==> plain_text(v)),
    ensures
        good_entries(fold_fields(fs, n)),
    decreases n,
{
    if n > 0 {
        let m = (n - 1) as nat;
        lemma_fold_good(fs, m);
        let prev = fold_fields(fs, m);
        let last = fs[m as int];
        assert(good_key(fs[m as int].0));
        match last.1 {
            Some(v) => {
                lemma_insert_unique(prev, last.0, v);
                lemma_key_index(prev, last.0);
                let e2 = insert_entry(prev, last.0, v);
                assert forall|i: int| 0 <= i < e2.len() implies good_key(#[trigger] e2[i].0) && plain_text(e2[i].1) by {
                    if i < prev.len() && i != key_index(prev, last.0) {
                        assert(e2[i] == prev[i]);
                    }
                }
            },
            None => {},
        }
    }
}

/// A pattern's fields, each with its key, in the order they are written.
pub open spec fn rule_fields(m: RecurModel) -> Seq<Field> {
    seq![
        (key_freq(), Some(m.frequency.code())),
        (key_interval(), match m.interval {
            Some(k) => Some(int_text(k as int)),
            None => None,
        }),
        (key_count(), match m.count {
            Some(k) => Some(int_text(k as int)),
            None => None,
        }),
        (key_until(), match m.until {
            Some(d) => Some(d.text()),
            None => None,
        }),
        (key_byhour(), list_opt(m.by_hour.map_values(|x: u8| int_text(x as int)))),
        (key_byminute(), list_opt(m.by_minute.map_values(|x: u8| int_text(x as int)))),
        (key_bysecond(), list_opt(m.by_second.map_values(|x: u8| int_text(x as int)))),
        (key_bymonthday(), list_opt(m.by_monthday.map_values(|x: i8| int_text(x as int)))),
        (key_byyearday(), list_opt(m.by_yearday.map_values(|x: i16| int_text(x as int)))),
        (key_bysetpos(), list_opt(m.by_setpos.map_values(|x: i32| int_text(x as int)))),
        (key_bymonth(), list_opt(m.by_month.map_values(|x: Month| x.code()))),
        (key_byweekno(), list_opt(m.by_weekno.map_values(|x: i8| int_text(x as int)))),
        (key_byday(), list_opt(m.by_day.map_values(|x: NWeekday| x.code()))),
        (key_wkst(), match m.weekstart {
            Some(d) => Some(d.code()),
            None => None,
        }),
    ]
}

proof fn lemma_rule_fields_fold(m: RecurModel)
    ensures
        rule_entries(m) == fold_fields(rule_fields(m), 14),
{
    reveal_with_fuel(fold_fields, 15);
}

proof fn lemma_u8_items(xs: Seq<u8>)
    ensures
        list_field(list_opt(xs.map_values(|x: u8| int_text(x as int))), |s: Seq<char>| u8_of(s)) == Some(xs),
        list_opt(xs.map_values(|x: u8| int_text(x as int))) matches Some(t) ==> plain_text(t),
{
    assert forall|i: int| 0 <= i < xs.len() implies u8_of(int_text(#[trigger] xs[i] as int)) == Some(xs[i]) && item_text(int_text(xs[i] as int)) by {
        lemma_int_text_value(xs[i] as int, 0, 255);
        lemma_int_item(xs[i] as int);
    }
    lemma_list_field(xs, |x: u8| int_text(x as int), |s: Seq<char>| u8_of(s));
}

proof fn lemma_i8_items(xs: Seq<i8>)
    ensures
        list_field(list_opt(xs.map_values(|x: i8| int_text(x as int))), |s: Seq<char>| i8_of(s)) == Some(xs),
        list_opt(xs.map_values(|x: i8| int_text(x as int))) matches Some(t) ==> plain_text(t),
{
    assert forall|i: int| 0 <= i < xs.len() implies i8_of(int_text(#[trigger] xs[i] as int)) == Some(xs[i]) && item_text(int_text(xs[i] as int)) by {
        lemma_int_text_value(xs[i] as int, -128, 127);
        lemma_int_item(xs[i] as int);
    }
    lemma_list_field(xs, |x: i8| int_text(x as int), |s: Seq<char>| i8_of(s));
}

proof fn lemma_i16_items(xs: Seq<i16>)
    ensures
        list_field(list_opt(xs.map_values(|x: i16| int_text(x as int))), |s: Seq<char>| i16_of(s)) == Some(xs),
        list_opt(xs.map_values(|x: i16| int_text(x as int))) matches Some(t) ==> plain_text(t),
{
    assert forall|i: int| 0 <= i < xs.len() implies i16_of(int_text(#[trigger] xs[i] as int)) == Some(xs[i]) && item_text(int_text(xs[i] as int)) by {
        lemma_int_text_value(xs[i] as int, -32768, 32767);
        lemma_int_item(xs[i] as int);
    }
    lemma_list_field(xs, |x: i16| int_text(x as int), |s: Seq<char>| i16_of(s));
}

proof fn lemma_i32_items(xs: Seq<i32>)
    ensures
        list_field(list_opt(xs.map_values(|x: i32| int_text(x as int))), |s: Seq<char>| i32_of(s)) == Some(xs),
        list_opt(xs.map_values(|x: i32| int_text(x as int))) matches Some(t) ==> plain_text(t),
{
    assert forall|i: int| 0 <= i < xs.len() implies i32_of(int_text(#[trigger] xs[i] as int)) == Some(xs[i]) && item_text(int_text(xs[i] as int)) by {
        lemma_int_text_value(xs[i] as int, -2147483648, 2147483647);
        lemma_int_item(xs[i] as int);
    }
    lemma_list_field(xs, |x: i32| int_text(x as int), |s: Seq<char>| i32_of(s));
}

proof fn lemma_month_items(xs: Seq<Month>)
    ensures
        list_field(list_opt(xs.map_values(|x: Month| x.code())), |s: Seq<char>| Month::from_code(s)) == Some(xs),
        list_opt(xs.map_values(|x: Month| x.code())) matches Some(t) ==> plain_text(t),
{
    assert forall|i: int| 0 <= i < xs.len() implies Month::from_code((#[trigger] xs[i]).code()) == Some(xs[i]) && item_text(xs[i].code()) by {
        lemma_month_item(xs[i]);
    }
    lemma_list_field(xs, |x: Month| x.code(), |s: Seq<char>| Month::from_code(s));
}

proof fn lemma_n_weekday_items(xs: Seq<NWeekday>)
    ensures
        list_field(list_opt(xs.map_values(|x: NWeekday| x.code())), |s: Seq<char>| NWeekday::from_code(s)) == Some(xs),
        list_opt(xs.map_values(|x: NWeekday| x.code())) matches Some(t) ==> plain_text(t),
{
    assert forall|i: int| 0 <= i < xs.len() implies NWeekday::from_code((#[trigger] xs[i]).code()) == Some(xs[i]) && item_text(xs[i].code()) by {
        lemma_n_weekday_item(xs[i]);
    }
    lemma_list_field(xs, |x: NWeekday| x.code(), |s: Seq<char>| NWeekday::from_code(s));
}

/// The field keys of a pattern differ from each other.
proof fn lemma_rule_fields_distinct(r: RecurModel)
    ensures
        distinct_keys(rule_fields(r)),
        forall|i: int| 0 <= i < rule_fields(r).len() ==> good_key(#[trigger] rule_fields(r)[i].0),
        rule_fields(r).len() == 14,
{
    let fs = rule_fields(r);
    lemma_rule_keys();
    let ks = rule_keys();
    assert forall|i: int| 0 <= i < 14 implies fs[i].0 == ks[i] by {}
    assert forall|i: int| 0 <= i < fs.len() implies good_key(#[trigger] fs[i].0) by {
        assert(good_key(ks[i]));
    }
}

/// The pairs of a pattern are good.
#[verifier::rlimit(100)]
proof fn lemma_rule_entries_good(r: RecurModel)
    ensures
        good_entries(rule_entries(r)),
{
    let fs = rule_fields(r);
    lemma_rule_fields_fold(r);
    lemma_rule_fields_distinct(r);
    lemma_frequency_item(r.frequency);
    lemma_item_text(r.frequency.code());
    match r.interval {
        Some(k) => {
            lemma_int_item(k as int);
            lemma_item_text(int_text(k as int));
        },
        None => {},
    }
    match r.count {
        Some(k) => {
            lemma_int_item(k as int);
            lemma_item_text(int_text(k as int));
        },
        None => {},
    }
    match r.until {
        Some(d) => {
            lemma_datetime_plain(d);
        },
        None => {},
    }
    match r.weekstart {
        Some(d) => {
            lemma_weekday_item(d);
            lemma_item_text(d.code());
        },
        None => {},
    }
    lemma_u8_items(r.by_hour);
    lemma_u8_items(r.by_minute);
    lemma_u8_items(r.by_second);
    lemma_i8_items(r.by_monthday);
    lemma_i16_items(r.by_yearday);
    lemma_i32_items(r.by_setpos);
    lemma_month_items(r.by_month);
    lemma_i8_items(r.by_weekno);
    lemma_n_weekday_items(r.by_day);
    assert forall|i: int| 0 <= i < fs.len() implies good_key(#[trigger] fs[i].0) && (fs[i].1 matches Some(v) ==> plain_text(v)) by {
        assert(good_key(fs[i].0));
    }
    lemma_fold_good(fs, 14);
}

/// Each key of a pattern holds its field's text.
#[verifier::rlimit(100)]
proof fn lemma_rule_lookups(r: RecurModel)
    ensures
        lookup(rule_entries(r), key_freq()) == rule_fields(r)[0].1,
        lookup(rule_entries(r), key_interval()) == rule_fields(r)[1].1,
        lookup(rule_entries(r), key_count()) == rule_fields(r)[2].1,
        lookup(rule_entries(r), key_until()) == rule_fields(r)[3].1,
        lookup(rule_entries(r), key_byhour()) == rule_fields(r)[4].1,
        lookup(rule_entries(r), key_byminute()) == rule_fields(r)[5].1,
        lookup(rule_entries(r), key_bysecond()) == rule_fields(r)[6].1,
        lookup(rule_entries(r), key_bymonthday()) == rule_fields(r)[7].1,
        lookup(rule_entries(r), key_byyearday()) == rule_fields(r)[8].1,
        lookup(rule_entries(r), key_bysetpos()) == rule_fields(r)[9].1,
        lookup(rule_entries(r), key_bymonth()) == rule_fields(r)[10].1,
        lookup(rule_entries(r), key_byweekno()) == rule_fields(r)[11].1,
        lookup(rule_entries(r), key_byday()) == rule_fields(r)[12].1,
        lookup(rule_entries(r), key_wkst()) == rule_fields(r)[13].1,
{
    let fs = rule_fields(r);
    lemma_rule_fields_fold(r);
    lemma_rule_fields_distinct(r);
    lemma_fold_lookup(fs, 14, key_freq());
    assert(fs[0].0 == key_freq());
    lemma_fold_lookup(fs, 14, key_interval());
    assert(fs[1].0 == key_interval());
    lemma_fold_lookup(fs, 14, key_count());
    assert(fs[2].0 == key_count());
    lemma_fold_lookup(fs, 14, key_until());
    assert(fs[3].0 == key_until());
    lemma_fold_lookup(fs, 14, key_byhour());
    assert(fs[4].0 == key_byhour());
    lemma_fold_lookup(fs, 14, key_byminute());
    assert(fs[5].0 == key_byminute());
    lemma_fold_lookup(fs, 14, key_bysecond());
    assert(fs[6].0 == key_bysecond());
    lemma_fold_lookup(fs, 14, key_bymonthday());
    assert(fs[7].0 == key_bymonthday());
    lemma_fold_lookup(fs, 14, key_byyearday());
    assert(fs[8].0 == key_byyearday());
    lemma_fold_lookup(fs, 14, key_bysetpos());
    assert(fs[9].0 == key_bysetpos());
    lemma_fold_lookup(fs, 14, key_bymonth());
    assert(fs[10].0 == key_bymonth());
    lemma_fold_lookup(fs, 14, key_byweekno());
    assert(fs[11].0 == key_byweekno());
    lemma_fold_lookup(fs, 14, key_byday());
    assert(fs[12].0 == key_byday());
    lemma_fold_lookup(fs, 14, key_wkst());
    assert(fs[13].0 == key_wkst());
}

/// A pattern whose `UNTIL` is writable reads back from its line, under
/// either pattern name.
#[verifier::rlimit(100)]
pub proof fn lemma_rule_line(name: Seq<char>, r: RecurModel)
    requires
        name == crate::keys::name_rrule() || name == crate::keys::name_exrule(),
        r.until matches Some(u) ==> u.writable(),
    ensures
        good_line(rule_line(name, r).0, rule_line(name, r).1, rule_line(name, r).2),
        rule_of(rule_line(name, r)) == Some(r),
{
    reveal(rule_of_entries);
    lemma_rule_entries_good(r);
    lemma_rule_lookups(r);
    lemma_frequency_item(r.frequency);
    match r.interval {
        Some(k) => lemma_int_text_value(k as int, 0, 65535),
        None => {},
    }
    match r.count {
        Some(k) => lemma_int_text_value(k as int, 0, 0xffff_ffff),
        None => {},
    }
    match r.until {
        Some(d) => lemma_datetime_text(d),
        None => {},
    }
    match r.weekstart {
        Some(d) => lemma_weekday_item(d),
        None => {},
    }
    lemma_u8_items(r.by_hour);
    lemma_u8_items(r.by_minute);
    lemma_u8_items(r.by_second);
    lemma_i8_items(r.by_monthday);
    lemma_i16_items(r.by_yearday);
    lemma_i32_items(r.by_setpos);
    lemma_month_items(r.by_month);
    lemma_i8_items(r.by_weekno);
    lemma_n_weekday_items(r.by_day);
    lemma_literal_rule_names();
    assert(good_key(name));
}

proof fn lemma_literal_rule_names()
    ensures
        good_key(crate::keys::name_rrule()),
        good_key(crate::keys::name_exrule()),
{
    assert(upper(crate::keys::name_rrule()) =~= crate::keys::name_rrule());
    assert(is_ascii_text(crate::keys::name_rrule()));
    assert(upper(crate::keys::name_exrule()) =~= crate::keys::name_exrule());
    assert(is_ascii_text(crate::keys::name_exrule()));
    assert forall|i: int| 0 <= i < crate::keys::name_rrule().len() implies plain(#[trigger] crate::keys::name_rrule()[i]) by {}
    assert forall|i: int| 0 <= i < crate::keys::name_exrule().len() implies plain(#[trigger] crate::keys::name_exrule()[i]) by {}
}


/// Files lines into `c`, in order.
pub open spec fn add_all(c: CalModel, ms: Seq<LineModel>) -> Option<CalModel>
    decreases ms.len(),
{
    if ms.len() == 0 {
        Some(c)
    } else {
        match add_all(c, ms.drop_last()) {
            None => None,
            Some(c2) => add_line(c2, ms.last()),
        }
    }
}

proof fn lemma_assemble_all(ms: Seq<LineModel>)
    ensures
        assemble(ms) == add_all(empty_calendar(), ms),
    decreases ms.len(),
{
    if ms.len() > 0 {
        lemma_assemble_all(ms.drop_last());
    }
}

proof fn lemma_add_all_append(c: CalModel, a: Seq<LineModel>, b: Seq<LineModel>)
    requires
        add_all(c, a) is Some,
    ensures
        add_all(c, a + b) == add_all(add_all(c, a)->0, b),
    decreases b.len(),
{
    if b.len() == 0 {
        assert(a + b =~= a);
    } else {
        lemma_add_all_append(c, a, b.drop_last());
        assert((a + b).drop_last() =~= a + b.drop_last());
        assert((a + b).last() == b.last());
    }
}

/// A pattern that can be written and read back.
pub open spec fn rule_ok(r: RecurModel) -> bool {
    r.until matches Some(u) ==> u.writable()
}

/// A list that can be written and read back.
pub open spec fn list_ok(l: ListModel) -> bool {
    &&& valid_list(l)
    &&& l.0.len() > 0
    &&& forall|i: int| 0 <= i < l.0.len() ==> (#[trigger] l.0[i]).writable()
    &&& good_zone(l.1)
}

proof fn lemma_names_distinct()
    ensures
        name_dtstart() != crate::keys::name_rrule(),
        name_dtstart() != crate::keys::name_exrule(),
        name_dtstart() != name_exdate(),
        name_dtstart() != name_rdate(),
        crate::keys::name_rrule() != crate::keys::name_exrule(),
        crate::keys::name_rrule() != name_exdate(),
        crate::keys::name_rrule() != name_rdate(),
        crate::keys::name_exrule() != name_exdate(),
        crate::keys::name_exrule() != name_rdate(),
        name_exdate() != name_rdate(),
{
    assert(name_dtstart().len() != crate::keys::name_rrule().len());
    assert(name_dtstart().len() != crate::keys::name_exrule().len());
    assert(name_dtstart().len() != name_exdate().len());
    assert(name_dtstart().len() != name_rdate().len());
    assert(crate::keys::name_rrule().len() != crate::keys::name_exrule().len());
    assert(crate::keys::name_rrule().len() != name_exdate().len());
    assert(crate::keys::name_rrule()[1] != name_rdate()[1]);
    assert(crate::keys::name_exrule()[2] != name_exdate()[2]);
    assert(crate::keys::name_exrule().len() != name_rdate().len());
    assert(name_exdate().len() != name_rdate().len());
}

/// Filing the lines of `rrules` appends them to the calendar.
proof fn lemma_add_rrules(c: CalModel, xs: Seq<RecurModel>)
    requires
        forall|i: int| 0 <= i < xs.len() ==> rule_ok(#[trigger] xs[i]),
    ensures
        add_all(c, xs.map_values(|r: RecurModel| rule_line(crate::keys::name_rrule(), r))) == Some(CalModel { rrules: c.rrules + xs, ..c }),
        good_lines(xs.map_values(|r: RecurModel| rule_line(crate::keys::name_rrule(), r))),
    decreases xs.len(),
{
    let ls = xs.map_values(|r: RecurModel| rule_line(crate::keys::name_rrule(), r));
    if xs.len() == 0 {
        assert(c.rrules + xs =~= c.rrules);
        assert(ls =~= Seq::<LineModel>::empty());
    } else {
        let init = xs.drop_last();
        assert forall|i: int| 0 <= i < init.len() implies #[trigger] rule_ok(init[i]) by {
            assert(init[i] == xs[i]);
        }
        lemma_add_rrules(c, init);
        assert(ls.drop_last() =~= init.map_values(|r: RecurModel| rule_line(crate::keys::name_rrule(), r)));
        let r = xs.last();
        assert(rule_ok(r)) by {
            assert(xs[xs.len() - 1] == r);
        }
        lemma_add_one_rrules(CalModel { rrules: c.rrules + init, ..c }, r);
        assert(c.rrules + init.push(r) =~= c.rrules + xs);
        assert((c.rrules + init).push(r) =~= c.rrules + init.push(r));
        assert forall|i: int| 0 <= i < ls.len() implies good_line(#[trigger] ls[i].0, ls[i].1, ls[i].2) by {
            if i < ls.len() - 1 {
                assert(ls[i] == init.map_values(|r: RecurModel| rule_line(crate::keys::name_rrule(), r))[i]);
            }
        }
    }
}

/// Filing the lines of `exrules` appends them to the calendar.
proof fn lemma_add_exrules(c: CalModel, xs: Seq<RecurModel>)
    requires
        forall|i: int| 0 <= i < xs.len() ==> rule_ok(#[trigger] xs[i]),
    ensures
        add_all(c, xs.map_values(|r: RecurModel| rule_line(crate::keys::name_exrule(), r))) == Some(CalModel { exrules: c.exrules + xs, ..c }),
        good_lines(xs.map_values(|r: RecurModel| rule_line(crate::keys::name_exrule(), r))),
    decreases xs.len(),
{
    let ls = xs.map_values(|r: RecurModel| rule_line(crate::keys::name_exrule(), r));
    if xs.len() == 0 {
        assert(c.exrules + xs =~= c.exrules);
        assert(ls =~= Seq::<LineModel>::empty());
    } else {
        let init = xs.drop_last();
        assert forall|i: int| 0 <= i < init.len() implies #[trigger] rule_ok(init[i]) by {
            assert(init[i] == xs[i]);
        }
        lemma_add_exrules(c, init);
        assert(ls.drop_last() =~= init.map_values(|r: RecurModel| rule_line(crate::keys::name_exrule(), r)));
        let r = xs.last();
        assert(rule_ok(r)) by {
            assert(xs[xs.len() - 1] == r);
        }
        lemma_add_one_exrules(CalModel { exrules: c.exrules + init, ..c }, r);
        assert(c.exrules + init.push(r) =~= c.exrules + xs);
        assert((c.exrules + init).push(r) =~= c.exrules + init.push(r));
        assert forall|i: int| 0 <= i < ls.len() implies good_line(#[trigger] ls[i].0, ls[i].1, ls[i].2) by {
            if i < ls.len() - 1 {
                assert(ls[i] == init.map_values(|r: RecurModel| rule_line(crate::keys::name_exrule(), r))[i]);
            }
        }
    }
}

/// Filing the lines of `exdates` appends them to the calendar.
proof fn lemma_add_exdates(c: CalModel, xs: Seq<ListModel>)
    requires
        forall|i: int| 0 <= i < xs.len() ==> list_ok(#[trigger] xs[i]),
    ensures
        add_all(c, xs.map_values(|r: ListModel| list_line(name_exdate(), r))) == Some(CalModel { exdates: c.exdates + xs, ..c }),
        good_lines(xs.map_values(|r: ListModel| list_line(name_exdate(), r))),
    decreases xs.len(),
{
    let ls = xs.map_values(|r: ListModel| list_line(name_exdate(), r));
    if xs.len() == 0 {
        assert(c.exdates + xs =~= c.exdates);
        assert(ls =~= Seq::<LineModel>::empty());
    } else {
        let init = xs.drop_last();
        assert forall|i: int| 0 <= i < init.len() implies #[trigger] list_ok(init[i]) by {
            assert(init[i] == xs[i]);
        }
        lemma_add_exdates(c, init);
        assert(ls.drop_last() =~= init.map_values(|r: ListModel| list_line(name_exdate(), r)));
        let r = xs.last();
        assert(list_ok(r)) by {
            assert(xs[xs.len() - 1] == r);
        }
        lemma_add_one_exdates(CalModel { exdates: c.exdates + init, ..c }, r);
        assert(c.exdates + init.push(r) =~= c.exdates + xs);
        assert((c.exdates + init).push(r) =~= c.exdates + init.push(r));
        assert forall|i: int| 0 <= i < ls.len() implies good_line(#[trigger] ls[i].0, ls[i].1, ls[i].2) by {
            if i < ls.len() - 1 {
                assert(ls[i] == init.map_values(|r: ListModel| list_line(name_exdate(), r))[i]);
            }
        }
    }
}

/// Filing the lines of `rdates` appends them to the calendar.
proof fn lemma_add_rdates(c: CalModel, xs: Seq<ListModel>)
    requires
        forall|i: int| 0 <= i < xs.len() ==> list_ok(#[trigger] xs[i]),
    ensures
        add_all(c, xs.map_values(|r: ListModel| list_line(name_rdate(), r))) == Some(CalModel { rdates: c.rdates + xs, ..c }),
        good_lines(xs.map_values(|r: ListModel| list_line(name_rdate(), r))),
    decreases xs.len(),
{
    let ls = xs.map_values(|r: ListModel| list_line(name_rdate(), r));
    if xs.len() == 0 {
        assert(c.rdates + xs =~= c.rdates);
        assert(ls =~= Seq::<LineModel>::empty());
    } else {
        let init = xs.drop_last();
        assert forall|i: int| 0 <= i < init.len() implies #[trigger] list_ok(init[i]) by {
            assert(init[i] == xs[i]);
        }
        lemma_add_rdates(c, init);
        assert(ls.drop_last() =~= init.map_values(|r: ListModel| list_line(name_rdate(), r)));
        let r = xs.last();
        assert(list_ok(r)) by {
            assert(xs[xs.len() - 1] == r);
        }
        lemma_add_one_rdates(CalModel { rdates: c.rdates + init, ..c }, r);
        assert(c.rdates + init.push(r) =~= c.rdates + xs);
        assert((c.rdates + init).push(r) =~= c.rdates + init.push(r));
        assert forall|i: int| 0 <= i < ls.len() implies good_line(#[trigger] ls[i].0, ls[i].1, ls[i].2) by {
            if i < ls.len() - 1 {
                assert(ls[i] == init.map_values(|r: ListModel| list_line(name_rdate(), r))[i]);
            }
        }
    }
}

/// Filing one line of `rrules`.
#[verifier::rlimit(100)]
proof fn lemma_add_one_rrules(c: CalModel, r: RecurModel)
    requires
        rule_ok(r),
    ensures
        add_line(c, rule_line(crate::keys::name_rrule(), r)) == Some(CalModel { rrules: c.rrules.push(r), ..c }),
        good_line(rule_line(crate::keys::name_rrule(), r).0, rule_line(crate::keys::name_rrule(), r).1, rule_line(crate::keys::name_rrule(), r).2),
{
    lemma_rule_line(crate::keys::name_rrule(), r);
    lemma_names_distinct();
    reveal(add_line);
}

/// Filing one line of `exrules`.
#[verifier::rlimit(100)]
proof fn lemma_add_one_exrules(c: CalModel, r: RecurModel)
    requires
        rule_ok(r),
    ensures
        add_line(c, rule_line(crate::keys::name_exrule(), r)) == Some(CalModel { exrules: c.exrules.push(r), ..c }),
        good_line(rule_line(crate::keys::name_exrule(), r).0, rule_line(crate::keys::name_exrule(), r).1, rule_line(crate::keys::name_exrule(), r).2),
{
    lemma_rule_line(crate::keys::name_exrule(), r);
    lemma_names_distinct();
    reveal(add_line);
}

/// Filing one line of `exdates`.
#[verifier::rlimit(100)]
proof fn lemma_add_one_exdates(c: CalModel, r: ListModel)
    requires
        list_ok(r),
    ensures
        add_line(c, list_line(name_exdate(), r)) == Some(CalModel { exdates: c.exdates.push(r), ..c }),
        good_line(list_line(name_exdate(), r).0, list_line(name_exdate(), r).1, list_line(name_exdate(), r).2),
{
    lemma_literal_keys();
    lemma_list_line(name_exdate(), r);
    lemma_names_distinct();
    reveal(add_line);
}

/// Filing one line of `rdates`.
#[verifier::rlimit(100)]
proof fn lemma_add_one_rdates(c: CalModel, r: ListModel)
    requires
        list_ok(r),
    ensures
        add_line(c, list_line(name_rdate(), r)) == Some(CalModel { rdates: c.rdates.push(r), ..c }),
        good_line(list_line(name_rdate(), r).0, list_line(name_rdate(), r).1, list_line(name_rdate(), r).2),
{
    lemma_literal_keys();
    lemma_list_line(name_rdate(), r);
    lemma_names_distinct();
    reveal(add_line);
}

/// Filing the anchor's line into an empty calendar.
#[verifier::rlimit(100)]
proof fn lemma_add_start(s: StartModel)
    requires
        valid_start(written_start(s)),
        s.0.writable(),
        good_zone(written_start(s).1),
    ensures
        add_all(empty_calendar(), seq![start_line(s)]) == Some(CalModel { starts: seq![written_start(s)], ..empty_calendar() }),
{
    let w = written_start(s);
    lemma_start_line(s);
    lemma_names_distinct();
    reveal(add_line);
    assert(seq![start_line(s)].drop_last() =~= Seq::<LineModel>::empty());
    assert(add_all(empty_calendar(), Seq::<LineModel>::empty()) == Some(empty_calendar()));
    assert(seq![start_line(s)].last() == start_line(s));
    let c0 = empty_calendar();
    assert(add_line(c0, start_line(s)) == Some(CalModel { starts: c0.starts.push(w), ..c0 }));
    assert(empty_calendar().starts.push(w) =~= seq![w]);
}

/// The lists that hold at least one date, in their order.
pub open spec fn nonempty_lists(ls: Seq<ListModel>) -> Seq<ListModel>
    decreases ls.len(),
{
    if ls.len() == 0 {
        Seq::empty()
    } else if ls.last().0.len() == 0 {
        nonempty_lists(ls.drop_last())
    } else {
        nonempty_lists(ls.drop_last()).push(ls.last())
    }
}

/// Only the non-empty lists have lines; what holds of every list holds of those.
proof fn lemma_list_lines(name: Seq<char>, ls: Seq<ListModel>, p: spec_fn(ListModel) -> bool)
    requires
        forall|i: int| 0 <= i < ls.len() ==> p(#[trigger] ls[i]),
    ensures
        list_lines(name, ls) == nonempty_lists(ls).map_values(|r: ListModel| list_line(name, r)),
        forall|j: int| 0 <= j < nonempty_lists(ls).len() ==> p(#[trigger] nonempty_lists(ls)[j]) && nonempty_lists(ls)[j].0.len() > 0,
    decreases ls.len(),
{
    let ne = nonempty_lists(ls);
    if ls.len() > 0 {
        let init = ls.drop_last();
        assert forall|i: int| 0 <= i < init.len() implies p(#[trigger] init[i]) by {
            assert(init[i] == ls[i]);
        }
        lemma_list_lines(name, init, p);
        assert(p(ls[ls.len() - 1]));
        if ls.last().0.len() > 0 {
            assert(ne.map_values(|r: ListModel| list_line(name, r)) =~= nonempty_lists(init).map_values(|r: ListModel| list_line(name, r)).push(list_line(name, ls.last())));
            assert forall|j: int| 0 <= j < ne.len() implies p(#[trigger] ne[j]) && ne[j].0.len() > 0 by {
                if j < ne.len() - 1 {
                    assert(ne[j] == nonempty_lists(init)[j]);
                }
            }
        }
    } else {
        assert(ne.map_values(|r: ListModel| list_line(name, r)) =~= Seq::<LineModel>::empty());
    }
}

/// A list whose dates can be written and read back.
pub open spec fn list_writable(l: ListModel) -> bool {
    &&& valid_list(l)
    &&& forall|i: int| 0 <= i < l.0.len() ==> (#[trigger] l.0[i]).writable()
    &&& good_zone(l.1)
}

/// What the text of a rule set states of it: the anchor as its line states
/// it, and the lists that hold at least one date.
pub open spec fn written_set(m: SetModel) -> SetModel {
    SetModel {
        start: written_start(m.start),
        exdates: nonempty_lists(m.exdates),
        rdates: nonempty_lists(m.rdates),
        ..m
    }
}

/// A rule set whose text can be read back: its anchor's value is writable,
/// its zone good and, where it is `UTC`, its time UTC or absent (a `UTC` zone
/// is not written); every `UNTIL` is writable; every list has writable
/// values and a good zone.
pub open spec fn writable_set(m: SetModel) -> bool {
    &&& m.start.0.writable()
    &&& good_zone(m.start.1)
    &&& (m.start.1 == Some(utc_name()) && m.start.0.time is Some ==> m.start.0.time->0.utc())
    &&& forall|i: int| 0 <= i < m.rrules.len() ==> rule_ok(#[trigger] m.rrules[i])
    &&& forall|i: int| 0 <= i < m.exrules.len() ==> rule_ok(#[trigger] m.exrules[i])
    &&& forall|i: int| 0 <= i < m.exdates.len() ==> list_writable(#[trigger] m.exdates[i])
    &&& forall|i: int| 0 <= i < m.rdates.len() ==> list_writable(#[trigger] m.rdates[i])
}

proof fn lemma_good_lines_append(a: Seq<LineModel>, b: Seq<LineModel>)
    requires
        good_lines(a),
        good_lines(b),
    ensures
        good_lines(a + b),
{
    assert forall|i: int| 0 <= i < (a + b).len() implies good_line(#[trigger] (a + b)[i].0, (a + b)[i].1, (a + b)[i].2) by {
        if i < a.len() {
            assert((a + b)[i] == a[i]);
        } else {
            assert((a + b)[i] == b[i - a.len()]);
        }
    }
}

/// Reading the text of a valid rule set gives back what the text states
/// of it: the same patterns, the same non-empty lists, the anchor's value
/// and value type, and its zone unless that is `UTC`. The text splits into
/// its lines, each line reads as the component it was written from, and the
/// components are filed in their order.
#[verifier::rlimit(100)]
pub proof fn lemma_set_round_trip(m: SetModel)
    requires
        valid_start(m.start),
        set_fits(m),
        writable_set(m),
    ensures
        set_of_text(set_text(m)) == Some(written_set(m)),
{
    let w = written_start(m.start);
    let k = m.start.0.value_type();
    assert(valid_start(w));
    let ne3 = nonempty_lists(m.exdates);
    let ne4 = nonempty_lists(m.rdates);
    let sl = seq![start_line(m.start)];
    let l1 = m.rrules.map_values(|r: RecurModel| rule_line(crate::keys::name_rrule(), r));
    let l2 = m.exrules.map_values(|r: RecurModel| rule_line(crate::keys::name_exrule(), r));
    let l3 = ne3.map_values(|r: ListModel| list_line(name_exdate(), r));
    let l4 = ne4.map_values(|r: ListModel| list_line(name_rdate(), r));
    assert forall|i: int| 0 <= i < m.exdates.len() implies (|l: ListModel| list_writable(l) && crate::rule_set::list_fits(k, l))(#[trigger] m.exdates[i]) by {}
    assert forall|i: int| 0 <= i < m.rdates.len() implies (|l: ListModel| list_writable(l) && crate::rule_set::list_fits(k, l))(#[trigger] m.rdates[i]) by {}
    lemma_list_lines(name_exdate(), m.exdates, |l: ListModel| list_writable(l) && crate::rule_set::list_fits(k, l));
    lemma_list_lines(name_rdate(), m.rdates, |l: ListModel| list_writable(l) && crate::rule_set::list_fits(k, l));
    assert forall|i: int| 0 <= i < ne3.len() implies list_ok(#[trigger] ne3[i]) by {}
    assert forall|i: int| 0 <= i < ne4.len() implies list_ok(#[trigger] ne4[i]) by {}
    let lines = set_lines(m);
    assert(lines == sl + l1 + l2 + l3 + l4);
    lemma_start_line(m.start);
    lemma_names_distinct();
    let c0 = empty_calendar();
    let c1 = CalModel { starts: seq![w], ..c0 };
    lemma_add_start(m.start);
    lemma_add_rrules(c1, m.rrules);
    let c2 = CalModel { rrules: c1.rrules + m.rrules, ..c1 };
    lemma_add_all_append(c0, sl, l1);
    lemma_add_exrules(c2, m.exrules);
    let c3 = CalModel { exrules: c2.exrules + m.exrules, ..c2 };
    lemma_add_all_append(c0, sl + l1, l2);
    lemma_add_exdates(c3, ne3);
    let c4 = CalModel { exdates: c3.exdates + ne3, ..c3 };
    lemma_add_all_append(c0, sl + l1 + l2, l3);
    lemma_add_rdates(c4, ne4);
    let c5 = CalModel { rdates: c4.rdates + ne4, ..c4 };
    lemma_add_all_append(c0, sl + l1 + l2 + l3, l4);
    lemma_assemble_all(lines);
    assert(c5.rrules =~= m.rrules);
    assert(c5.exrules =~= m.exrules);
    assert(c5.exdates =~= ne3);
    assert(c5.rdates =~= ne4);
    assert(assemble(lines) == Some(c5));
    assert(good_lines(sl)) by {
        assert(sl[0] == start_line(m.start));
    }
    lemma_good_lines_append(sl, l1);
    lemma_good_lines_append(sl + l1, l2);
    lemma_good_lines_append(sl + l1 + l2, l3);
    lemma_good_lines_append(sl + l1 + l2 + l3, l4);
    lemma_parse_text_lines(lines);
    assert(c5.starts.len() == 1);
    assert(c5.starts[0] == w);
    assert(set_fits(written_set(m)));
}

proof fn lemma_nonempty_same(ls: Seq<ListModel>)
    requires
        forall|i: int| 0 <= i < ls.len() ==> (#[trigger] ls[i]).0.len() > 0,
    ensures
        nonempty_lists(ls) == ls,
    decreases ls.len(),
{
    if ls.len() > 0 {
        let init = ls.drop_last();
        assert forall|i: int| 0 <= i < init.len() implies (#[trigger] init[i]).0.len() > 0 by {
            assert(init[i] == ls[i]);
        }
        lemma_nonempty_same(init);
        assert(ls[ls.len() - 1].0.len() > 0);
        assert(init.push(ls.last()) =~= ls);
    } else {
        assert(ls =~= Seq::<ListModel>::empty());
    }
}

/// What the text states of a rule set is written as the same text.
pub proof fn lemma_written_text(m: SetModel)
    ensures
        set_text(written_set(m)) == set_text(m),
{
    let t = |l: ListModel| true;
    lemma_list_lines(name_exdate(), m.exdates, t);
    lemma_list_lines(name_rdate(), m.rdates, t);
    let ne3 = nonempty_lists(m.exdates);
    let ne4 = nonempty_lists(m.rdates);
    lemma_list_lines(name_exdate(), ne3, t);
    lemma_list_lines(name_rdate(), ne4, t);
    lemma_nonempty_same(ne3);
    lemma_nonempty_same(ne4);
    assert(start_line(written_start(m.start)) == start_line(m.start));
    assert(set_lines(written_set(m)) =~= set_lines(m));
}

/// A start anchor whose time of day is not UTC needs a zone; one at UTC
/// needs none.
pub proof fn lemma_zone_required(value: DateTime, value_type: Option<ValueType>)
    requires
        value.time is Some,
    ensures
        !value.time->0.utc() ==> !valid_start((value, None, value_type)),
        value.time->0.utc() && (value_type is None || value_type == Some(ValueType::DateTime))
            ==> valid_start((value, None, value_type)),
{
}

/// A list holding a time of day does not fit an anchor on a whole day.
pub proof fn lemma_date_anchor_refuses_times(l: ListModel, i: int)
    requires
        valid_list(l),
        0 <= i < l.0.len(),
        l.0[i].time is Some,
    ensures
        !crate::rule_set::list_fits(ValueType::Date, l),
{
    assert(l.0[i].value_type() == ValueType::DateTime);
}

/// A text whose lines hold more than one `DTSTART` describes no rule set.
pub proof fn lemma_single_start(s: Seq<char>)
    requires
        parse_text(s) is Ok,
        assemble(parse_text(s)->Ok_0) is Some,
        assemble(parse_text(s)->Ok_0)->0.starts.len() > 1,
    ensures
        set_of_text(s) is None,
{
}

/// A line of any other name is passed over.
pub proof fn lemma_unknown_line_skipped(c: CalModel, m: LineModel)
    requires
        m.0 != name_dtstart(),
        m.0 != crate::keys::name_rrule(),
        m.0 != crate::keys::name_exrule(),
        m.0 != name_exdate(),
        m.0 != name_rdate(),
    ensures
        add_line(c, m) == Some(c),
{
    reveal(add_line);
}

} // verus!
