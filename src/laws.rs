//! Properties that relate several operations of the collector.

use vstd::prelude::*;

use crate::collect::{
    Action, Phase, SessionView, continue_with, invalid_input_message,
    invalid_number_message, new_item, next, prompted, run, start, table_row, table_source,
    with_item_value,
};
use crate::models::{
    ConfigView, ItemView, effective_value, filled_all, initialized, is_storage_kind,
    position_of_key, lemma_position_of_key, stored_key, validated, validated_reserved,
};
use crate::persist::{
    env_entries, env_file, flat_pairs, internal_key, json_text, lemma_position_of_pair, pairs_map,
};
use crate::text::{is_digit, lowercase_of, parsed_index, trimmed, unsigned_digits, uppercase_of};

verus! {

/// No two items share a key.
pub open spec fn keys_unique(s: Seq<ItemView>) -> bool {
    forall|i: int, j: int| 0 <= i < j < s.len() ==> (#[trigger] s[i]).key != (#[trigger] s[j]).key
}

impl ConfigView {
    /// Keys are unique across both sequences, and a reserved "stored" item
    /// exists.
    pub open spec fn valid(self) -> bool {
        &&& keys_unique(self.items())
        &&& position_of_key(self.rpcfg, stored_key()) < self.rpcfg.len()
    }
}

/// Where the first item of key `k` stands, and that none stands before it.
pub proof fn lemma_position_facts(s: Seq<ItemView>, k: Seq<char>)
    ensures
        0 <= position_of_key(s, k) <= s.len(),
        forall|j: int| 0 <= j < position_of_key(s, k) ==> (#[trigger] s[j]).key != k,
        position_of_key(s, k) < s.len() ==> s[position_of_key(s, k)].key == k,
    decreases s.len(),
{
    if s.len() > 0 && s[0].key != k {
        lemma_position_facts(s.drop_first(), k);
        assert forall|j: int| 0 <= j < position_of_key(s, k) implies (#[trigger] s[j]).key != k by {
            if j > 0 {
                assert(s[j] == s.drop_first()[j - 1]);
            }
        }
    }
}

/// No two items have keys that lower-case alike, so each item has a JSON
/// key of its own.
pub open spec fn json_keys_unique(s: Seq<ItemView>) -> bool {
    forall|i: int, j: int|
        0 <= i < j < s.len() ==> lowercase_of((#[trigger] s[i]).key) != lowercase_of(
            (#[trigger] s[j]).key,
        )
}

/// The JSON map of a sequence of items whose keys lower-case apart holds
/// each item's lower-cased key, other than for the internal key, with the
/// item's value; each of its pairs comes from an item.
pub proof fn lemma_flat_pairs_values(s: Seq<ItemView>)
    requires
        json_keys_unique(s),
    ensures
        forall|m: int|
            0 <= m < flat_pairs(s).len() ==> exists|j: int|
                0 <= j < s.len() && (#[trigger] flat_pairs(s)[m]).0 == lowercase_of(s[j].key),
        forall|j: int|
            0 <= j < s.len() && (#[trigger] s[j]).key != internal_key() ==> pairs_map(
                flat_pairs(s),
            ).contains_key(lowercase_of(s[j].key)) && pairs_map(flat_pairs(s))[lowercase_of(
                s[j].key,
            )] == s[j].value,
    decreases s.len(),
{
    if s.len() > 0 {
        let d = s.drop_last();
        let last = s.last();
        let lk = lowercase_of(last.key);
        assert(json_keys_unique(d)) by {
            assert forall|i: int, j: int| 0 <= i < j < d.len() implies lowercase_of(
                (#[trigger] d[i]).key,
            ) != lowercase_of((#[trigger] d[j]).key) by {
                assert(d[i] == s[i] && d[j] == s[j]);
            }
        }
        lemma_flat_pairs_values(d);
        let r = flat_pairs(d);
        if last.key == internal_key() {
            assert forall|m: int| 0 <= m < flat_pairs(s).len() implies exists|j: int|
                0 <= j < s.len() && (#[trigger] flat_pairs(s)[m]).0 == lowercase_of(s[j].key) by {
                let j = choose|j: int| 0 <= j < d.len() && r[m].0 == lowercase_of(d[j].key);
                assert(s[j] == d[j]);
            }
            assert forall|j: int|
                0 <= j < s.len() && (#[trigger] s[j]).key != internal_key() implies pairs_map(
                flat_pairs(s),
            ).contains_key(lowercase_of(s[j].key)) && pairs_map(flat_pairs(s))[lowercase_of(
                s[j].key,
            )] == s[j].value by {
                assert(j < d.len());
                assert(s[j] == d[j]);
            }
        } else {
            assert forall|m: int| 0 <= m < r.len() implies (#[trigger] r[m]).0 != lk by {
                let j = choose|j: int| 0 <= j < d.len() && r[m].0 == lowercase_of(d[j].key);
                assert(s[j] == d[j]);
                assert(lowercase_of(s[j].key) != lowercase_of(s[s.len() - 1].key));
            }
            lemma_position_of_pair(r, lk, r.len() as int);
            assert(flat_pairs(s) == r.push((lk, last.value)));
            assert forall|m: int| 0 <= m < flat_pairs(s).len() implies exists|j: int|
                0 <= j < s.len() && (#[trigger] flat_pairs(s)[m]).0 == lowercase_of(s[j].key) by {
                if m < r.len() {
                    let j = choose|j: int| 0 <= j < d.len() && r[m].0 == lowercase_of(d[j].key);
                    assert(s[j] == d[j]);
                    assert(flat_pairs(s)[m] == r[m]);
                } else {
                    assert(flat_pairs(s)[m].0 == lowercase_of(s[s.len() - 1].key));
                }
            }
            let ps = flat_pairs(s);
            assert(ps.drop_last() =~= r);
            assert(pairs_map(ps) == pairs_map(r).insert(lk, last.value));
            assert forall|j: int|
                0 <= j < s.len() && (#[trigger] s[j]).key != internal_key() implies pairs_map(
                ps,
            ).contains_key(lowercase_of(s[j].key)) && pairs_map(ps)[lowercase_of(s[j].key)]
                == s[j].value by {
                if j < d.len() {
                    assert(s[j] == d[j]);
                    assert(lowercase_of(s[j].key) != lowercase_of(s[s.len() - 1].key));
                }
            }
        }
    }
}

/// The entry `e` is that of a required item of `s`.
pub open spec fn entry_of_required(s: Seq<ItemView>, e: (Seq<char>, Seq<char>)) -> bool {
    exists|j: int|
        0 <= j < s.len() && (#[trigger] s[j]).required_as_env && e == (uppercase_of(s[j].key), s[j].value)
}

/// The environment entries are exactly those of the required items: each
/// required item gives its upper-cased key and its value, and each entry
/// comes from a required item.
pub proof fn lemma_env_entries(s: Seq<ItemView>)
    ensures
        forall|j: int|
            0 <= j < s.len() && (#[trigger] s[j]).required_as_env ==> env_entries(s).contains(
                (uppercase_of(s[j].key), s[j].value),
            ),
        forall|m: int|
            0 <= m < env_entries(s).len() ==> entry_of_required(s, #[trigger] env_entries(s)[m]),
    decreases s.len(),
{
    if s.len() > 0 {
        let d = s.drop_last();
        let last = s.last();
        lemma_env_entries(d);
        let r = env_entries(d);
        let e = env_entries(s);
        assert forall|j: int|
            0 <= j < s.len() && (#[trigger] s[j]).required_as_env implies e.contains(
            (uppercase_of(s[j].key), s[j].value),
        ) by {
            if j < d.len() {
                assert(s[j] == d[j]);
                let m = choose|m: int| 0 <= m < r.len() && r[m] == (uppercase_of(d[j].key), d[j].value);
                assert(e[m] == r[m]);
            } else {
                assert(e[e.len() - 1] == (uppercase_of(s[j].key), s[j].value));
            }
        }
        assert forall|m: int| 0 <= m < e.len() implies entry_of_required(s, #[trigger] e[m]) by {
            if m < r.len() {
                assert(e[m] == r[m]);
                let j = choose|j: int|
                    0 <= j < d.len() && (#[trigger] d[j]).required_as_env && r[m] == (
                        uppercase_of(d[j].key),
                        d[j].value,
                    );
                assert(s[j] == d[j]);
            } else {
                let j = s.len() - 1;
                assert(s[j].required_as_env && e[m] == (uppercase_of(s[j].key), s[j].value));
            }
        }
    }
}

/// After a save, the environment file holds a `KEY=value` entry for every
/// item required as an environment variable, with the key upper-cased and
/// the same value as the JSON object holds for the lower-cased key; items
/// that are not required never give an entry.
pub proof fn lemma_env_agrees_with_json(c: ConfigView)
    requires
        json_keys_unique(c.items()),
    ensures
        forall|j: int|
            0 <= j < c.items().len() && (#[trigger] c.items()[j]).required_as_env && c.items()[j].key
                != internal_key() ==> env_entries(c.items()).contains(
                (uppercase_of(c.items()[j].key), c.items()[j].value),
            ) && pairs_map(flat_pairs(c.items()))[lowercase_of(c.items()[j].key)]
                == c.items()[j].value,
        forall|m: int|
            0 <= m < env_entries(c.items()).len() ==> entry_of_required(
                c.items(),
                #[trigger] env_entries(c.items())[m],
            ),
{
    lemma_flat_pairs_values(c.items());
    lemma_env_entries(c.items());
}

/// Filling an item twice is filling it once.
pub proof fn lemma_filled_twice(s: Seq<ItemView>)
    ensures
        filled_all(filled_all(s)) == filled_all(s),
{
    assert(filled_all(filled_all(s)) =~= filled_all(s));
}

/// Validation keeps the keys of the reserved items, in place, and the
/// validated sequence is filled and has a valid "stored" item first among
/// those of its key.
proof fn lemma_validated_shape(r: Seq<ItemView>)
    ensures
        filled_all(validated_reserved(r)) == validated_reserved(r),
        position_of_key(validated_reserved(r), stored_key()) < validated_reserved(r).len(),
        is_storage_kind(
            validated_reserved(r)[position_of_key(validated_reserved(r), stored_key())].value,
        ),
        validated_reserved(r).len() >= r.len(),
        forall|j: int| 0 <= j < r.len() ==> (#[trigger] validated_reserved(r)[j]).key == r[j].key,
{
    reveal_strlit("local");
    reveal_strlit("stored");
    let f = filled_all(r);
    lemma_filled_twice(r);
    lemma_position_facts(f, stored_key());
    let i = position_of_key(f, stored_key());
    let v = validated_reserved(r);
    if i < f.len() {
        assert forall|j: int| 0 <= j < i implies (#[trigger] v[j]).key != stored_key() by {
            assert(v[j].key == f[j].key);
        }
        lemma_position_of_key(v, stored_key(), i);
        if !is_storage_kind(f[i].value) {
            assert(filled_all(v) =~= v);
        }
    } else {
        assert forall|j: int| 0 <= j < f.len() implies (#[trigger] v[j]).key != stored_key() by {
            assert(v[j] == f[j]);
        }
        lemma_position_of_key(v, stored_key(), f.len() as int);
        assert(filled_all(v) =~= v);
    }
}

/// Validating reserved items that are already valid changes nothing.
proof fn lemma_validated_reserved_twice(r: Seq<ItemView>)
    ensures
        validated_reserved(validated_reserved(r)) == validated_reserved(r),
{
    lemma_validated_shape(r);
}

/// What a session that saves or quits at once leaves behind: the
/// configuration initialized and validated, as it was shown.
pub proof fn lemma_run_saves_at_once(c: ConfigView, lines: Seq<Seq<char>>)
    requires
        lines.len() > 0,
        trimmed(lines[0]) == "s"@ || trimmed(lines[0]) == "S"@ || trimmed(lines[0]) == "q"@
            || trimmed(lines[0]) == "Q"@,
    ensures
        run(start(c), lines).session.config == validated(initialized(c)),
        run(start(c), lines).action == Some(
            if trimmed(lines[0]) == "s"@ || trimmed(lines[0]) == "S"@ {
                Action::Save
            } else {
                Action::Quit
            },
        ),
{
}

/// A second run of the collector that only saves, on the configuration a
/// first run that only saved or quit left behind, leaves the same
/// configuration and so writes the same JSON and environment text.
pub proof fn lemma_second_run_same_output(
    c: ConfigView,
    first: Seq<Seq<char>>,
    second: Seq<Seq<char>>,
)
    requires
        first.len() > 0,
        second.len() > 0,
        trimmed(first[0]) == "s"@ || trimmed(first[0]) == "S"@ || trimmed(first[0]) == "q"@
            || trimmed(first[0]) == "Q"@,
        trimmed(second[0]) == "s"@ || trimmed(second[0]) == "S"@,
    ensures
        run(start(run(start(c), first).session.config), second).session.config == run(
            start(c),
            first,
        ).session.config,
        json_text(run(start(run(start(c), first).session.config), second).session.config)
            == json_text(run(start(c), first).session.config),
        env_file(run(start(run(start(c), first).session.config), second).session.config)
            == env_file(run(start(c), first).session.config),
{
    let c1 = validated(initialized(c));
    lemma_run_saves_at_once(c1, second);
    lemma_validated_shape(filled_all(c.rpcfg));
    lemma_filled_twice(c.app);
    assert(initialized(c1) == c1);
    lemma_validated_reserved_twice(filled_all(c.rpcfg));
    assert(validated(c1) == c1);
}

/// The text `t` is a digit string, so it is none of the command letters.
proof fn lemma_number_is_no_letter(t: Seq<char>)
    requires
        parsed_index(t) is Some,
    ensures
        t != "s"@ && t != "S"@ && t != "q"@ && t != "Q"@ && t != "n"@ && t != "N"@,
{
    reveal_strlit("s");
    reveal_strlit("S");
    reveal_strlit("q");
    reveal_strlit("Q");
    reveal_strlit("n");
    reveal_strlit("N");
    let d = unsigned_digits(t);
    if t.len() == 1 {
        assert(d == t);
        assert(is_digit(d[0]));
    }
}

/// An item number out of range (0, or beyond the last item) leaves the
/// session as it was and reports an invalid item number.
pub proof fn lemma_out_of_range_number(s: SessionView, t: Seq<char>)
    requires
        s.phase == Phase::Command,
        parsed_index(t) matches Some(n) && (n == 0 || n > s.config.items().len()),
    ensures
        next(s, t) == continue_with(s, invalid_number_message()),
{
    lemma_number_is_no_letter(t);
}

/// A line that is neither a number nor a command letter leaves the session
/// as it was and reports invalid input.
pub proof fn lemma_invalid_input(s: SessionView, t: Seq<char>)
    requires
        s.phase == Phase::Command,
        parsed_index(t) is None,
        t != "s"@ && t != "S"@ && t != "q"@ && t != "Q"@ && t != "n"@ && t != "N"@,
    ensures
        next(s, t) == continue_with(s, invalid_input_message()),
{
}

/// The last answer about a new setting appends exactly one item, made of
/// the answers, to the application's items, and the next table shows it as
/// its last row.
pub proof fn lemma_new_setting_shown(s: SessionView, t: Seq<char>)
    requires
        s.phase == Phase::NewSetting,
        s.answers.len() == 4,
    ensures
        ({
            let c = next(s, t).session.config;
            let it = new_item(
                s.answers[0],
                s.answers[1],
                s.answers[2],
                s.answers[3],
                lowercase_of(t) == "y"@,
            );
            let shown = prompted(next(s, t).session).config.items();
            &&& c.rpcfg == s.config.rpcfg
            &&& c.app == s.config.app.push(it)
            &&& shown.len() > 0
            &&& shown.last() == it
            &&& table_source(shown) == table_source(shown.drop_last()) + table_row(shown.len(), it)
        }),
{
    let c = next(s, t).session.config;
    let shown = prompted(next(s, t).session).config.items();
    assert(shown.last() == c.app.last());
}

/// A value entered for an item and then saved is the value the JSON object
/// holds for the item's lower-cased key, where validation keeps it: for an application
/// item always, for a reserved item when it is not empty and, for the
/// "stored" item, names a storage kind.
pub proof fn lemma_saved_value(c: ConfigView, i: int, v: Seq<char>)
    requires
        c.valid(),
        json_keys_unique(c.items()),
        0 <= i < c.items().len(),
        c.items()[i].key != internal_key(),
        i >= c.rpcfg.len() || (v.len() > 0 && (c.items()[i].key != stored_key()
            || is_storage_kind(v))),
    ensures
        pairs_map(flat_pairs(validated(with_item_value(c, i, v)).items()))[lowercase_of(
            c.items()[i].key,
        )] == v,
{
    let k = c.items()[i].key;
    let c1 = with_item_value(c, i, v);
    let c2 = validated(c1);
    let nr = c.rpcfg.len();
    assert(c1.rpcfg.len() == nr);
    lemma_validated_shape(c1.rpcfg);
    lemma_position_facts(c.rpcfg, stored_key());
    lemma_position_facts(filled_all(c1.rpcfg), stored_key());
    let p = position_of_key(c.rpcfg, stored_key());
    assert forall|j: int| 0 <= j < p implies (#[trigger] filled_all(c1.rpcfg)[j]).key != stored_key() by {
        assert(filled_all(c1.rpcfg)[j].key == c.rpcfg[j].key);
    }
    lemma_position_of_key(filled_all(c1.rpcfg), stored_key(), p);
    assert(c2.rpcfg.len() == nr);
    assert(keys_unique(c2.items())) by {
        assert forall|a: int, b: int| 0 <= a < b < c2.items().len() implies (
        #[trigger] c2.items()[a]).key != (#[trigger] c2.items()[b]).key by {
            assert(c2.items()[a].key == c.items()[a].key);
            assert(c2.items()[b].key == c.items()[b].key);
        }
    }
    assert(json_keys_unique(c2.items())) by {
        assert forall|a: int, b: int| 0 <= a < b < c2.items().len() implies lowercase_of(
            (#[trigger] c2.items()[a]).key,
        ) != lowercase_of((#[trigger] c2.items()[b]).key) by {
            assert(c2.items()[a].key == c.items()[a].key);
            assert(c2.items()[b].key == c.items()[b].key);
        }
    }
    assert(c2.items()[i].key == k);
    if i < nr {
        if k == stored_key() {
            assert(i == p) by {
                if i != p {
                    if i < p {
                    } else {
                        assert(c.items()[p].key == c.items()[i].key);
                    }
                }
            }
        } else {
            assert(i != p);
        }
        assert(c2.items()[i].value == v);
    } else {
        assert(c2.items()[i] == c1.app[i - nr]);
    }
    lemma_flat_pairs_values(c2.items());
}

/// A value cleared to nothing shows as the item's default in the next
/// table, unless it is the "stored" item with a default that names no
/// storage kind.
pub proof fn lemma_cleared_value_shows_default(c: ConfigView, i: int)
    requires
        c.valid(),
        0 <= i < c.items().len(),
        c.items()[i].key != stored_key() || is_storage_kind(c.items()[i].default),
    ensures
        effective_value(validated(with_item_value(c, i, Seq::empty())).items()[i])
            == c.items()[i].default,
{
    let c1 = with_item_value(c, i, Seq::empty());
    let nr = c.rpcfg.len();
    lemma_validated_shape(c1.rpcfg);
    lemma_position_facts(c.rpcfg, stored_key());
    let p = position_of_key(c.rpcfg, stored_key());
    assert forall|j: int| 0 <= j < p implies (#[trigger] filled_all(c1.rpcfg)[j]).key != stored_key() by {
        assert(filled_all(c1.rpcfg)[j].key == c.rpcfg[j].key);
    }
    lemma_position_of_key(filled_all(c1.rpcfg), stored_key(), p);
    if i < nr {
        if i == p {
            assert(filled_all(c1.rpcfg)[i].value == c.rpcfg[i].default);
        }
    }
}

} // verus!
