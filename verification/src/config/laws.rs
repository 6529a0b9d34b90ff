//! What holds of the reading of entries: that an entry is read as what it
//! states, and that an entry that cannot be read changes nothing.

use crate::config::{
    entry_of, fields_from, is_mapping_key, is_separator, mapping_fields, mappings_of,
    next_separator, options_of, valid_field_count, EntryView,
};
use crate::endpoint::{is_webhook_url, lemma_webhook_url_colons};
use crate::error::ConfigParseError;
use crate::registry::MappingView;
use crate::text::{
    decimal, is_digit, lemma_decimal_digits, lemma_decimal_round_trip, unsigned_of,
};
use vstd::prelude::*;

verus! {

/// The mapping that an entry is read as holds what the entry's fields say:
/// the first field is the source, the second the destination; replays may be
/// asked for if an option is the word `all`; the endpoint is the address
/// among the options if it has the shape of one.
pub proof fn lemma_entry_components(entry: Seq<char>)
    requires
        entry_of(entry) is Ok,
    ensures
        ({
            let fields = mapping_fields(entry);
            let mapping = entry_of(entry).unwrap().mapping;
            let options = options_of(fields.skip(2));
            &&& valid_field_count(fields.len())
            &&& unsigned_of(fields[0]) == Some(mapping.source_id)
            &&& unsigned_of(fields[1]) == Some(mapping.destination_id)
            &&& options is Some
            &&& mapping.backfill_on_demand == options.unwrap().0
            &&& mapping.impersonation_endpoint is Some ==> options.unwrap().1
                == mapping.impersonation_endpoint && is_webhook_url(
                mapping.impersonation_endpoint.unwrap(),
            )
            &&& mapping.impersonation_endpoint is None ==> options.unwrap().1
                == entry_of(entry).unwrap().rejected_endpoint
        }),
{
}

/// Reading an entry and looking its source up gives the mapping that the
/// entry was read as, unless a later entry is for the same source.
pub proof fn lemma_parse_then_lookup(vars: Seq<(Seq<char>, Seq<char>)>, i: int)
    requires
        0 <= i < vars.len(),
        is_mapping_key(vars[i].0),
        entry_of(vars[i].1) is Ok,
        forall|j: int|
            i < j < vars.len() && is_mapping_key(vars[j].0) && entry_of(vars[j].1) is Ok ==> (
            #[trigger] entry_of(vars[j].1)).unwrap().mapping.source_id != entry_of(
                vars[i].1,
            ).unwrap().mapping.source_id,
    ensures
        mappings_of(vars).contains_key(entry_of(vars[i].1).unwrap().mapping.source_id),
        mappings_of(vars)[entry_of(vars[i].1).unwrap().mapping.source_id] == entry_of(
            vars[i].1,
        ).unwrap().mapping,
    decreases vars.len(),
{
    let earlier = vars.drop_last();
    if i < vars.len() - 1 {
        assert(earlier[i] == vars[i]);
        assert forall|j: int|
            i < j < earlier.len() && is_mapping_key(earlier[j].0) && entry_of(earlier[j].1)
                is Ok implies (#[trigger] entry_of(earlier[j].1)).unwrap().mapping.source_id
            != entry_of(earlier[i].1).unwrap().mapping.source_id by {
            assert(earlier[j] == vars[j]);
        }
        lemma_parse_then_lookup(earlier, i);
        let j = vars.len() - 1;
        assert(vars.last() == vars[j]);
    }
}

/// An entry that cannot be read gives no mapping, and takes none away:
/// the mappings are those of the other entries.
pub proof fn lemma_malformed_entry_adds_nothing(
    vars: Seq<(Seq<char>, Seq<char>)>,
    key: Seq<char>,
    value: Seq<char>,
)
    requires
        entry_of(value) is Err,
    ensures
        mappings_of(vars.push((key, value))) == mappings_of(vars),
{
    assert(vars.push((key, value)).drop_last() == vars);
}

/// An entry with the wrong number of fields, or with an identifier that is
/// not a number, cannot be read.
pub proof fn lemma_malformed_entries(entry: Seq<char>)
    ensures
        !valid_field_count(mapping_fields(entry).len()) ==> entry_of(entry) == Err::<
            EntryView,
            ConfigParseError,
        >(ConfigParseError::FieldCount),
        valid_field_count(mapping_fields(entry).len()) && unsigned_of(mapping_fields(entry)[0])
            is None ==> entry_of(entry) == Err::<EntryView, ConfigParseError>(
            ConfigParseError::SourceId,
        ),
        valid_field_count(mapping_fields(entry).len()) && unsigned_of(mapping_fields(entry)[0])
            is Some && unsigned_of(mapping_fields(entry)[1]) is None ==> entry_of(entry) == Err::<
            EntryView,
            ConfigParseError,
        >(ConfigParseError::DestinationId),
{
}

/// A text that stays one field wherever it stands in an entry: every colon
/// in it is the colon of a scheme, and it does not begin with two slashes.
pub open spec fn is_one_field(f: Seq<char>) -> bool {
    &&& forall|i: int|
        0 <= i < f.len() && #[trigger] f[i] == ':' ==> i + 2 < f.len() && f[i + 1] == '/' && f[i
            + 2] == '/'
    &&& !(f.len() >= 2 && f[0] == '/' && f[1] == '/')
}

/// The entry that is made of the given fields: the fields with a colon between each two.
pub open spec fn join_fields(fields: Seq<Seq<char>>) -> Seq<char>
    decreases fields.len(),
{
    if fields.len() == 0 {
        Seq::empty()
    } else if fields.len() == 1 {
        fields[0]
    } else {
        fields[0] + seq![':'] + join_fields(fields.drop_first())
    }
}

proof fn lemma_no_separator_between(s: Seq<char>, from: int, to: int)
    requires
        0 <= from <= to <= s.len(),
        forall|i: int| from <= i < to ==> !is_separator(s, i),
    ensures
        next_separator(s, from) == next_separator(s, to),
    decreases to - from,
{
    if from < to {
        lemma_no_separator_between(s, from + 1, to);
    }
}

proof fn lemma_separators_shift(p: Seq<char>, t: Seq<char>, k: int)
    requires
        0 <= k <= t.len(),
    ensures
        next_separator(p + t, p.len() + k) == p.len() + next_separator(t, k),
        fields_from(p + t, p.len() + k) == fields_from(t, k),
    decreases t.len() - k,
{
    let s = p + t;
    assert forall|i: int| 0 <= i < t.len() implies is_separator(s, p.len() + i) == is_separator(
        t,
        i,
    ) by {
        assert(s[p.len() + i] == t[i]);
        if i + 2 < t.len() {
            assert(s[p.len() + i + 1] == t[i + 1]);
            assert(s[p.len() + i + 2] == t[i + 2]);
        }
    }
    if k < t.len() {
        lemma_separators_shift(p, t, k + 1);
        assert(is_separator(s, p.len() + k) == is_separator(t, k));
    }
    let end = next_separator(t, k);
    lemma_next_separator_bounds(t, k);
    assert(s.subrange(p.len() + k, s.len() as int) == t.subrange(k, t.len() as int));
    if end < t.len() {
        assert(s.subrange(p.len() + k, p.len() + end) == t.subrange(k, end));
        lemma_separators_shift(p, t, end + 1);
    }
}

proof fn lemma_next_separator_bounds(s: Seq<char>, from: int)
    requires
        0 <= from <= s.len(),
    ensures
        from <= next_separator(s, from) <= s.len(),
        next_separator(s, from) < s.len() ==> is_separator(s, next_separator(s, from)),
    decreases s.len() - from,
{
    if from < s.len() && !is_separator(s, from) {
        lemma_next_separator_bounds(s, from + 1);
    }
}

/// Cutting an entry gives back the fields it was made of, where each of
/// them stays one field.
pub proof fn lemma_split_join(fields: Seq<Seq<char>>)
    requires
        fields.len() > 0,
        forall|j: int| 0 <= j < fields.len() ==> is_one_field(#[trigger] fields[j]),
    ensures
        mapping_fields(join_fields(fields)) == fields,
    decreases fields.len(),
{
    let first = fields[0];
    let s = join_fields(fields);
    if fields.len() == 1 {
        assert forall|i: int| 0 <= i < s.len() implies !is_separator(s, i) by {}
        lemma_no_separator_between(s, 0, s.len() as int);
        assert(s.subrange(0, s.len() as int) == s);
        assert(fields == seq![s]);
    } else {
        let others = fields.drop_first();
        let rest = join_fields(others);
        let n = first.len() as int;
        assert forall|j: int| 0 <= j < others.len() implies is_one_field(#[trigger] others[j]) by {
            assert(others[j] == fields[j + 1]);
        }
        lemma_split_join(others);
        let second = others[0];
        assert(is_one_field(second));
        // The text begins with the first field, a colon, and the second field.
        assert(s == first + seq![':'] + rest);
        assert forall|i: int| 0 <= i < n implies !is_separator(s, i) by {
            assert(s[i] == first[i]);
            if first[i] == ':' {
                assert(s[i + 1] == first[i + 1]);
                assert(s[i + 2] == first[i + 2]);
            }
        }
        assert(s[n] == ':');
        assert(is_separator(s, n)) by {
            if n + 2 < s.len() && s[n + 1] == '/' && s[n + 2] == '/' {
                if others.len() == 1 {
                    assert(rest == second);
                    assert(s[n + 1] == second[0]);
                    assert(s[n + 2] == second[1]);
                } else {
                    assert(rest == second + seq![':'] + join_fields(others.drop_first()));
                    if second.len() >= 2 {
                        assert(s[n + 1] == second[0]);
                        assert(s[n + 2] == second[1]);
                    } else if second.len() == 1 {
                        assert(s[n + 2] == ':');
                    } else {
                        assert(s[n + 1] == ':');
                    }
                }
            }
        }
        lemma_no_separator_between(s, 0, n);
        assert(next_separator(s, 0) == n);
        assert(s.subrange(0, n) == first);
        lemma_separators_shift(first + seq![':'], rest, 0);
        assert((first + seq![':']).len() == n + 1);
        assert(fields_from(s, n + 1) == fields_from(rest, 0));
        assert(fields == seq![first] + others);
    }
}

/// The fields of the entry that states a mapping: the two identifiers in
/// decimal, then the endpoint if there is one and the word `all` if replays
/// may be asked for, in either order.
pub open spec fn entry_fields(mapping: MappingView, all_first: bool) -> Seq<Seq<char>> {
    let ids = seq![decimal(mapping.source_id as nat), decimal(mapping.destination_id as nat)];
    match (mapping.impersonation_endpoint, mapping.backfill_on_demand) {
        (None, false) => ids,
        (None, true) => ids.push("all"@),
        (Some(endpoint), false) => ids.push(endpoint),
        (Some(endpoint), true) => if all_first {
            ids.push("all"@).push(endpoint)
        } else {
            ids.push(endpoint).push("all"@)
        },
    }
}

/// The entry that states a mapping.
pub open spec fn entry_text(mapping: MappingView, all_first: bool) -> Seq<char> {
    join_fields(entry_fields(mapping, all_first))
}

/// Every valid entry is read as the mapping it states: the entry written
/// for a mapping, with the word `all` before or after the endpoint, is read
/// as that mapping, and nothing of it is set aside.
pub proof fn lemma_entry_round_trip(mapping: MappingView, all_first: bool)
    requires
        mapping.impersonation_endpoint is Some ==> is_webhook_url(
            mapping.impersonation_endpoint.unwrap(),
        ),
    ensures
        entry_of(entry_text(mapping, all_first)) == Ok::<EntryView, ConfigParseError>(
            EntryView { mapping, rejected_endpoint: None },
        ),
{
    let fields = entry_fields(mapping, all_first);
    let source = decimal(mapping.source_id as nat);
    let destination = decimal(mapping.destination_id as nat);
    reveal_strlit("all");
    lemma_decimal_digits(mapping.source_id as nat);
    lemma_decimal_digits(mapping.destination_id as nat);
    lemma_decimal_round_trip(mapping.source_id);
    lemma_decimal_round_trip(mapping.destination_id);
    assert(is_one_field(source)) by {
        assert forall|i: int| 0 <= i < source.len() implies source[i] != ':' by {
            assert(is_digit(source[i]));
        }
        assert(is_digit(source[0]));
    }
    assert(is_one_field(destination)) by {
        assert forall|i: int| 0 <= i < destination.len() implies destination[i] != ':' by {
            assert(is_digit(destination[i]));
        }
        assert(is_digit(destination[0]));
    }
    assert(is_one_field("all"@));
    if mapping.impersonation_endpoint is Some {
        let endpoint = mapping.impersonation_endpoint.unwrap();
        lemma_webhook_url_colons(endpoint);
        assert(is_one_field(endpoint));
        assert(endpoint != "all"@) by {
            assert(endpoint[0] != "all"@[0]);
        }
    }
    assert forall|j: int| 0 <= j < fields.len() implies is_one_field(#[trigger] fields[j]) by {}
    lemma_split_join(fields);
    assert(fields[0] == source);
    assert(fields[1] == destination);
    let options = fields.skip(2);
    match (mapping.impersonation_endpoint, mapping.backfill_on_demand) {
        (None, false) => {
            assert(options.len() == 0);
        },
        (None, true) => {
            assert(options.len() == 1 && options[0] == "all"@);
        },
        (Some(endpoint), false) => {
            assert(options.len() == 1 && options[0] == endpoint);
        },
        (Some(endpoint), true) => {
            assert(options.len() == 2);
            if all_first {
                assert(options[0] == "all"@ && options[1] == endpoint);
            } else {
                assert(options[0] == endpoint && options[1] == "all"@);
            }
        },
    }
}

} // verus!
