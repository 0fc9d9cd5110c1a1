//! What every sanitized configuration satisfies, whatever it came from.
use vstd::prelude::*;
use crate::app_state::{OnboardingStep, law_persisted_step_round_trip, step_from_name, step_name};
use crate::config::{
    ConfigView, MAX_BOOKMARKS, MAX_NEWS_KEYWORDS, MAX_REMINDER_OFFSETS, MAX_STOCK_SYMBOLS,
    MAX_SYMBOL_BYTES, MAX_WEATHER_LOCATIONS, OnboardingStateView, coordinates_in_range,
    is_symbol_char, largest_offset_below, merged_editable, merged_onboarding, offset_in_range,
    remote_onboarding_wins, sanitized, sanitized_reminders, ReminderSettingsView, sanitized_keyword, sanitized_location, sanitized_onboarding,
    symbol_spec, sync_safe, top_offsets, normalized_step_name, APP_VERSION,
};
use crate::text::{
    at_most, clean_text_spec, drop_controls, is_control_char, lemma_drop_controls_of_clean, trimmed,
    utf8_len,
};
use crate::timestamp::rfc3339_instant;

verus! {

/// Every item that `filter_map` keeps is what `f` made of some item of `s`.
pub proof fn lemma_filter_map_items<A, B>(s: Seq<A>, f: spec_fn(A) -> Option<B>, i: int)
    requires
        0 <= i < s.filter_map(f).len(),
    ensures
        exists|j: int| 0 <= j < s.len() && f(#[trigger] s[j]) == Some(s.filter_map(f)[i]),
    decreases s.len(),
{
    let rest = s.drop_last();
    if i < rest.filter_map(f).len() {
        lemma_filter_map_items(rest, f, i);
        let j = choose|j: int| 0 <= j < rest.len() && f(#[trigger] rest[j]) == Some(rest.filter_map(f)[i]);
        assert(s[j] == rest[j]);
        match f(s.last()) {
            Some(b) => assert(s.filter_map(f)[i] == rest.filter_map(f)[i]),
            None => {},
        }
    } else {
        match f(s.last()) {
            Some(b) => {
                assert(s.filter_map(f)[i] == b);
                assert(f(s[s.len() - 1]) == Some(b));
            },
            None => {},
        }
    }
}

/// Cleaned text holds no control character and no more than `max` of them.
pub proof fn lemma_clean_text_shape(s: Seq<char>, max: nat)
    ensures
        clean_text_spec(s, max).len() <= max,
        forall|i: int|
            0 <= i < clean_text_spec(s, max).len() ==> !is_control_char(
                #[trigger] clean_text_spec(s, max)[i],
            ),
{
    let f = |c: char| if is_control_char(c) { None } else { Some(c) };
    let d = drop_controls(trimmed(s));
    assert forall|i: int| 0 <= i < clean_text_spec(s, max).len() implies !is_control_char(
        #[trigger] clean_text_spec(s, max)[i],
    ) by {
        assert(clean_text_spec(s, max)[i] == d[i]);
        lemma_filter_map_items(trimmed(s), f, i);
    }
}

/// The largest eligible offset below `bound` is eligible, below `bound`,
/// one of `offsets`, and no eligible offset below `bound` exceeds it; there
/// is none only when no offset is eligible below `bound`.
pub proof fn lemma_largest_offset(offsets: Seq<u16>, bound: int)
    ensures
        match largest_offset_below(offsets, bound) {
            Some(m) => offset_in_range(m) && m < bound && offsets.contains(m) && forall|x: u16|
                offsets.contains(x) && offset_in_range(x) && x < bound ==> x <= m,
            None => forall|x: u16| offsets.contains(x) && offset_in_range(x) ==> x >= bound,
        },
    decreases offsets.len(),
{
    if offsets.len() > 0 {
        let rest = offsets.drop_last();
        lemma_largest_offset(rest, bound);
        assert forall|x: u16| offsets.contains(x) implies rest.contains(x) || x == offsets.last() by {
            let k = choose|k: int| 0 <= k < offsets.len() && offsets[k] == x;
            if k < offsets.len() - 1 {
                assert(rest[k] == x);
            }
        }
        if let Some(m) = largest_offset_below(rest, bound) {
            let k = choose|k: int| 0 <= k < rest.len() && rest[k] == m;
            assert(offsets[k] == m);
        }
        assert(offsets[offsets.len() - 1] == offsets.last());
    }
}

proof fn lemma_top_offsets(offsets: Seq<u16>, bound: int, count: nat)
    ensures
        ({
            let r = top_offsets(offsets, bound, count);
            &&& r.len() <= count
            &&& forall|i: int| 0 <= i < r.len() ==> offset_in_range(#[trigger] r[i]) && r[i] < bound
                && offsets.contains(r[i])
            &&& forall|i: int, j: int| 0 <= i < j < r.len() ==> r[i] > r[j]
            &&& forall|x: u16|
                offsets.contains(x) && offset_in_range(x) && x < bound && !r.contains(x) ==> r.len()
                    == count && (count > 0 ==> x < r.last())
        }),
    decreases count,
{
    lemma_largest_offset(offsets, bound);
    if count > 0 {
        if let Some(m) = largest_offset_below(offsets, bound) {
            let rest = top_offsets(offsets, m as int, (count - 1) as nat);
            lemma_top_offsets(offsets, m as int, (count - 1) as nat);
            let r = top_offsets(offsets, bound, count);
            assert(r == seq![m] + rest);
            assert forall|i: int| 0 <= i < r.len() implies offset_in_range(#[trigger] r[i]) && r[i]
                < bound && offsets.contains(r[i]) by {
                if i > 0 {
                    assert(r[i] == rest[i - 1]);
                }
            }
            assert forall|i: int, j: int| 0 <= i < j < r.len() implies r[i] > r[j] by {
                assert(r[j] == rest[j - 1]);
                if i > 0 {
                    assert(r[i] == rest[i - 1]);
                }
            }
            assert forall|x: u16|
                offsets.contains(x) && offset_in_range(x) && x < bound && !r.contains(x) implies r.len()
                == count && (count > 0 ==> x < r.last()) by {
                assert(x != m) by {
                    assert(r[0] == m);
                }
                assert(!rest.contains(x)) by {
                    if rest.contains(x) {
                        let k = choose|k: int| 0 <= k < rest.len() && rest[k] == x;
                        assert(r[k + 1] == x);
                    }
                }
                if rest.len() > 0 {
                    assert(r.last() == rest.last());
                }
            }
        }
    }
}

/// The kept reminder offsets are the latest distinct offsets from one minute
/// to one day: strictly decreasing, at most five, each one of the given
/// offsets, and any in-range offset left out lies below all five kept.
pub proof fn law_reminder_offsets_are_the_latest_distinct(offsets: Seq<u16>)
    ensures
        ({
            let r = top_offsets(offsets, 0x10000, MAX_REMINDER_OFFSETS as nat);
            &&& r.len() <= MAX_REMINDER_OFFSETS
            &&& forall|i: int| 0 <= i < r.len() ==> offset_in_range(#[trigger] r[i]) && offsets.contains(
                r[i],
            )
            &&& forall|i: int, j: int| 0 <= i < j < r.len() ==> r[i] > r[j]
            &&& forall|x: u16|
                offsets.contains(x) && offset_in_range(x) && !r.contains(x) ==> r.len()
                    == MAX_REMINDER_OFFSETS && x < r.last()
        }),
{
    lemma_top_offsets(offsets, 0x10000, MAX_REMINDER_OFFSETS as nat);
}

/// On offsets that are already strictly decreasing and in range, picking the
/// `count` largest below `bound` reads them off in order, starting at the
/// first one below `bound`.
proof fn lemma_top_offsets_of_descending(r: Seq<u16>, bound: int, k: int, count: nat)
    requires
        0 <= k <= r.len(),
        forall|i: int| 0 <= i < r.len() ==> offset_in_range(#[trigger] r[i]),
        forall|i: int, j: int| 0 <= i < j < r.len() ==> r[i] > r[j],
        forall|i: int| 0 <= i < k ==> #[trigger] r[i] >= bound,
        forall|i: int| k <= i < r.len() ==> #[trigger] r[i] < bound,
    ensures
        top_offsets(r, bound, count) == r.subrange(
            k,
            if k + count < r.len() {
                k + count
            } else {
                r.len() as int
            },
        ),
    decreases count,
{
    lemma_largest_offset(r, bound);
    if count == 0 {
        assert(top_offsets(r, bound, count) =~= Seq::<u16>::empty());
    } else if k == r.len() {
        if let Some(n) = largest_offset_below(r, bound) {
            let j = choose|j: int| 0 <= j < r.len() && r[j] == n;
            assert(r[j] >= bound);
        }
        assert(top_offsets(r, bound, count) =~= Seq::<u16>::empty());
    } else {
        let m = r[k];
        assert(r.contains(m));
        assert(largest_offset_below(r, bound) == Some(m)) by {
            if let Some(n) = largest_offset_below(r, bound) {
                let j = choose|j: int| 0 <= j < r.len() && r[j] == n;
                if j < k {
                    assert(r[j] >= bound);
                }
                if j > k {
                    assert(r[k] > r[j]);
                }
            }
        }
        assert forall|i: int| 0 <= i < k + 1 implies #[trigger] r[i] >= m as int by {
            if i < k {
                assert(r[i] > r[k]);
            }
        }
        assert forall|i: int| k + 1 <= i < r.len() implies #[trigger] r[i] < m as int by {
            assert(r[k] > r[i]);
        }
        lemma_top_offsets_of_descending(r, m as int, k + 1, (count - 1) as nat);
        let end = if k + count < r.len() {
            k + count
        } else {
            r.len() as int
        };
        assert(top_offsets(r, bound, count) =~= r.subrange(k, end));
    }
}

/// Sanitizing reminder settings a second time changes nothing.
pub proof fn law_reminder_sanitize_is_idempotent(settings: ReminderSettingsView)
    ensures
        sanitized_reminders(sanitized_reminders(settings)) == sanitized_reminders(settings),
{
    let r = top_offsets(settings.offsets_minutes, 0x10000, MAX_REMINDER_OFFSETS as nat);
    lemma_top_offsets(settings.offsets_minutes, 0x10000, MAX_REMINDER_OFFSETS as nat);
    lemma_top_offsets_of_descending(r, 0x10000, 0, MAX_REMINDER_OFFSETS as nat);
    assert(r.subrange(0, r.len() as int) =~= r);
}

/// A sanitized configuration is within every limit: at most five weather
/// locations, each named and in range; at most twenty valid symbols; at most
/// twenty non-blank keywords of at most 64 characters without control
/// characters; at most fifty bookmarks; a user id of at most 128 characters;
/// a step index of at most 4; and the current version.
pub proof fn law_sanitized_config_is_within_limits(config: ConfigView)
    ensures
        ({
            let s = sanitized(config);
            &&& s.version == APP_VERSION@
            &&& s.user_id.len() <= 128
            &&& s.weather_locations.len() <= MAX_WEATHER_LOCATIONS
            &&& forall|i: int|
                0 <= i < s.weather_locations.len() ==> {
                    let l = #[trigger] s.weather_locations[i];
                    &&& 0 < l.name.len() <= 80
                    &&& coordinates_in_range(l.lat_bits, l.lon_bits)
                }
            &&& s.stock_symbols.len() <= MAX_STOCK_SYMBOLS
            &&& forall|i: int|
                0 <= i < s.stock_symbols.len() ==> {
                    let sym = #[trigger] s.stock_symbols[i];
                    &&& sym.len() > 0
                    &&& utf8_len(sym) <= MAX_SYMBOL_BYTES
                    &&& forall|k: int| 0 <= k < sym.len() ==> is_symbol_char(#[trigger] sym[k])
                }
            &&& s.news_keywords.len() <= MAX_NEWS_KEYWORDS
            &&& forall|i: int|
                0 <= i < s.news_keywords.len() ==> {
                    let k = #[trigger] s.news_keywords[i];
                    &&& 0 < k.len() <= 64
                    &&& forall|c: int| 0 <= c < k.len() ==> !is_control_char(#[trigger] k[c])
                }
            &&& s.browser_bookmarks.len() <= MAX_BOOKMARKS
            &&& s.onboarding.step_index <= 4
            &&& s.reminder_settings.offsets_minutes.len() <= MAX_REMINDER_OFFSETS
        }),
{
    let s = sanitized(config);
    lemma_clean_text_shape(config.user_id, 128);
    lemma_top_offsets(config.reminder_settings.offsets_minutes, 0x10000, MAX_REMINDER_OFFSETS as nat);
    let fl = |l: crate::config::WeatherLocationView| sanitized_location(l);
    let all_locations = config.weather_locations.filter_map(fl);
    assert forall|i: int| 0 <= i < s.weather_locations.len() implies {
        let l = #[trigger] s.weather_locations[i];
        &&& 0 < l.name.len() <= 80
        &&& coordinates_in_range(l.lat_bits, l.lon_bits)
    } by {
        assert(s.weather_locations[i] == all_locations[i]);
        lemma_filter_map_items(config.weather_locations, fl, i);
        let j = choose|j: int|
            0 <= j < config.weather_locations.len() && fl(#[trigger] config.weather_locations[j])
                == Some(all_locations[i]);
        lemma_clean_text_shape(config.weather_locations[j].name, 80);
    }
    let fs = |x: Seq<char>| symbol_spec(x);
    let all_symbols = config.stock_symbols.filter_map(fs);
    assert forall|i: int| 0 <= i < s.stock_symbols.len() implies {
        let sym = #[trigger] s.stock_symbols[i];
        &&& sym.len() > 0
        &&& utf8_len(sym) <= MAX_SYMBOL_BYTES
        &&& forall|k: int| 0 <= k < sym.len() ==> is_symbol_char(#[trigger] sym[k])
    } by {
        assert(s.stock_symbols[i] == all_symbols[i]);
        lemma_filter_map_items(config.stock_symbols, fs, i);
    }
    let fk = |k: Seq<char>| sanitized_keyword(k);
    let all_keywords = config.news_keywords.filter_map(fk);
    assert forall|i: int| 0 <= i < s.news_keywords.len() implies {
        let k = #[trigger] s.news_keywords[i];
        &&& 0 < k.len() <= 64
        &&& forall|c: int| 0 <= c < k.len() ==> !is_control_char(#[trigger] k[c])
    } by {
        assert(s.news_keywords[i] == all_keywords[i]);
        lemma_filter_map_items(config.news_keywords, fk, i);
        let j = choose|j: int|
            0 <= j < config.news_keywords.len() && fk(#[trigger] config.news_keywords[j])
                == Some(all_keywords[i]);
        lemma_clean_text_shape(config.news_keywords[j], 64);
    }
}

/// Sanitizing leaves the session's tokens exactly as they were.
pub proof fn law_sanitize_keeps_session_tokens(config: ConfigView)
    requires
        config.supabase_session is Some,
    ensures
        ({
            let before = config.supabase_session->0;
            let after = sanitized(config).supabase_session->0;
            &&& sanitized(config).supabase_session is Some
            &&& after.access_token == before.access_token
            &&& after.refresh_token == before.refresh_token
            &&& after.provider_token == before.provider_token
            &&& after.provider_refresh_token == before.provider_refresh_token
            &&& after.expires_at == before.expires_at
        }),
{
}

/// The shareable configuration holds no secret: no session and no calendar
/// token.
pub proof fn law_sync_safe_config_holds_no_secrets(config: ConfigView)
    ensures
        sync_safe(config).supabase_session is None,
        forall|i: int|
            0 <= i < sync_safe(config).calendar_providers.len() ==> (
            #[trigger] sync_safe(config).calendar_providers[i]).access_token.len() == 0
                && sync_safe(config).calendar_providers[i].refresh_token.len() == 0,
{
}

/// What may leave the machine is the sanitized configuration with only its
/// secrets taken out: no session, and every calendar account with its access
/// and refresh tokens blanked. Every other field, and every other field of
/// each calendar account, is exactly as sanitizing gives it.
pub proof fn law_sync_safe_removes_only_secrets(config: ConfigView)
    ensures
        ({
            let safe = sync_safe(config);
            let s = sanitized(config);
            &&& safe.supabase_session is None
            &&& safe.version == s.version
            &&& safe.user_id == s.user_id
            &&& safe.weather_locations == s.weather_locations
            &&& safe.stock_symbols == s.stock_symbols
            &&& safe.news_keywords == s.news_keywords
            &&& safe.browser_bookmarks == s.browser_bookmarks
            &&& safe.git_repo_path == s.git_repo_path
            &&& safe.supabase_sync_enabled == s.supabase_sync_enabled
            &&& safe.onboarding == s.onboarding
            &&& safe.reminder_settings == s.reminder_settings
            &&& safe.calendar_providers.len() == s.calendar_providers.len()
            &&& forall|i: int|
                0 <= i < s.calendar_providers.len() ==> {
                    let p = #[trigger] safe.calendar_providers[i];
                    let q = s.calendar_providers[i];
                    &&& p.provider == q.provider
                    &&& p.email == q.email
                    &&& p.expires_at == q.expires_at
                    &&& p.access_token.len() == 0
                    &&& p.refresh_token.len() == 0
                }
        }),
{
}

/// Saving edited settings takes every editable field from the edit and
/// every other field from the current configuration, as a save sanitizes
/// them: the weather locations, symbols, keywords, bookmarks, repository
/// path, sync switch and reminder settings are those of the sanitized edit,
/// sanitized once more; the version, user id, session, calendar accounts and
/// onboarding record are those of the sanitized current configuration. The
/// sync switch and the reminder settings come out exactly as in the
/// sanitized edit.
pub proof fn law_merge_takes_editable_fields_from_the_edit(current: ConfigView, incoming: ConfigView)
    ensures
        ({
            let merged = merged_editable(current, incoming);
            let edit = sanitized(incoming);
            let resaved = sanitized(edit);
            let kept = sanitized(current);
            &&& merged.weather_locations == resaved.weather_locations
            &&& merged.stock_symbols == resaved.stock_symbols
            &&& merged.news_keywords == resaved.news_keywords
            &&& merged.browser_bookmarks == resaved.browser_bookmarks
            &&& merged.git_repo_path == resaved.git_repo_path
            &&& merged.supabase_sync_enabled == edit.supabase_sync_enabled
            &&& merged.supabase_sync_enabled == incoming.supabase_sync_enabled
            &&& merged.reminder_settings == edit.reminder_settings
            &&& merged.version == kept.version
            &&& merged.user_id == kept.user_id
            &&& merged.supabase_session == kept.supabase_session
            &&& merged.calendar_providers == kept.calendar_providers
            &&& merged.onboarding == kept.onboarding
        }),
{
    law_reminder_sanitize_is_idempotent(incoming.reminder_settings);
}

/// A `filter_map` that keeps every item as it is gives the sequence back.
proof fn lemma_filter_map_keeps_all<A>(s: Seq<A>, f: spec_fn(A) -> Option<A>)
    requires
        forall|i: int| 0 <= i < s.len() ==> f(#[trigger] s[i]) == Some(s[i]),
    ensures
        s.filter_map(f) == s,
    decreases s.len(),
{
    if s.len() == 0 {
        assert(s.filter_map(f) =~= s);
    } else {
        let rest = s.drop_last();
        assert forall|i: int| 0 <= i < rest.len() implies f(#[trigger] rest[i]) == Some(rest[i]) by {
            assert(rest[i] == s[i]);
        }
        lemma_filter_map_keeps_all(rest, f);
        assert(f(s[s.len() - 1]) == Some(s[s.len() - 1]));
        assert(rest + seq![s.last()] =~= s);
    }
}

/// The weather locations of a saved edit are exactly those that sanitizing
/// the edit keeps, whenever sanitizing leaves every kept name without white
/// space at its ends: a location the user adds is stored as sanitizing the
/// edit gives it. (Where a cut name ends in white space, a save trims it once
/// more.)
pub proof fn law_merge_keeps_the_edited_locations(current: ConfigView, incoming: ConfigView)
    requires
        forall|i: int|
            0 <= i < sanitized(incoming).weather_locations.len() ==> trimmed(
                (#[trigger] sanitized(incoming).weather_locations[i]).name,
            ) == sanitized(incoming).weather_locations[i].name,
    ensures
        merged_editable(current, incoming).weather_locations == sanitized(incoming).weather_locations,
{
    let list = sanitized(incoming).weather_locations;
    let fl = |l: crate::config::WeatherLocationView| sanitized_location(l);
    let all = incoming.weather_locations.filter_map(fl);
    assert forall|i: int| 0 <= i < list.len() implies fl(#[trigger] list[i]) == Some(list[i]) by {
        let v = list[i];
        assert(v == all[i]);
        lemma_filter_map_items(incoming.weather_locations, fl, i);
        let j = choose|j: int|
            0 <= j < incoming.weather_locations.len() && fl(#[trigger] incoming.weather_locations[j])
                == Some(all[i]);
        lemma_clean_text_shape(incoming.weather_locations[j].name, 80);
        lemma_drop_controls_of_clean(v.name);
        assert(clean_text_spec(v.name, 80) == v.name);
        assert(v.name.len() > 0);
    }
    lemma_filter_map_keeps_all(list, fl);
    law_merge_takes_editable_fields_from_the_edit(current, incoming);
}

/// Merging an edited configuration never changes control state or identity:
/// the user id, session, calendar accounts and onboarding record are those
/// of the current configuration, sanitized.
pub proof fn law_editable_merge_keeps_control_state(current: ConfigView, incoming: ConfigView)
    ensures
        ({
            let merged = merged_editable(current, incoming);
            let kept = sanitized(current);
            &&& merged.user_id == kept.user_id
            &&& merged.supabase_session == kept.supabase_session
            &&& merged.calendar_providers == kept.calendar_providers
            &&& merged.onboarding == kept.onboarding
        }),
{
}

/// A remote completion always wins the onboarding merge, and the merge
/// always yields one of the two records, sanitized.
pub proof fn law_remote_completion_wins(local: OnboardingStateView, remote: OnboardingStateView)
    ensures
        remote.completed && !local.completed ==> merged_onboarding(local, remote).completed,
        merged_onboarding(local, remote) == sanitized_onboarding(local) || merged_onboarding(
            local,
            remote,
        ) == sanitized_onboarding(remote),
{
}

/// Sanitizing an onboarding record twice changes nothing more than once.
pub proof fn law_onboarding_sanitize_is_idempotent(state: OnboardingStateView)
    ensures
        sanitized_onboarding(sanitized_onboarding(state)) == sanitized_onboarding(state),
{
    let once = sanitized_onboarding(state);
    let step = if state.completed {
        OnboardingStep::Complete
    } else {
        step_from_name(trimmed(state.current_step))
    };
    law_persisted_step_round_trip(step);
    if !state.completed {
        assert(step != OnboardingStep::Complete);
        assert(step_from_name(trimmed(step_name(step)@)) == step);
    }
    assert(normalized_step_name(once.current_step, once.completed) == once.current_step);
}

} // verus!
