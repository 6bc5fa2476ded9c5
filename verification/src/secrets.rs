//! Cloud provider API keys kept in the OS keychain: the naming of keychain
//! entries, collecting the keys that were found, and moving plaintext keys
//! out of the configuration file.
use vstd::prelude::*;

use crate::keymap::{keys_distinct, KeyMap};

verus! {

broadcast use vstd::string::group_string_axioms;

/// Keychain service under which all entries are stored.
pub open spec fn service_name() -> Seq<char> {
    "hivebear"@
}

/// The keychain service name.
pub fn keychain_service() -> (r: &'static str)
    ensures
        r@ == service_name(),
{
    "hivebear"
}

/// The keychain user of a provider's entry: `cloud::` and the provider.
pub open spec fn keychain_user_of(provider: Seq<char>) -> Seq<char> {
    "cloud::"@ + provider
}

/// The keychain user under which a provider's API key is stored.
pub fn keychain_user(provider: &str) -> (r: String)
    ensures
        r@ == keychain_user_of(provider@),
{
    let mut u = "cloud::".to_owned();
    u.append(provider);
    u
}

/// Providers whose API keys may be stored in the keychain.
pub fn known_providers() -> (r: Vec<&'static str>)
    ensures
        r@.len() == 32,
{
    let mut v: Vec<&'static str> = Vec::new();
    v.push("openai");
    v.push("anthropic");
    v.push("google");
    v.push("mistral");
    v.push("groq");
    v.push("together");
    v.push("fireworks");
    v.push("deepseek");
    v.push("xai");
    v.push("huggingface");
    v.push("cohere");
    v.push("perplexity");
    v.push("openrouter");
    v.push("lepton");
    v.push("novita");
    v.push("cerebras");
    v.push("sambanova");
    v.push("hyperbolic");
    v.push("nebius");
    v.push("kluster");
    v.push("inferencenet");
    v.push("nineteen");
    v.push("chutes");
    v.push("targon");
    v.push("centauri");
    v.push("ncompass");
    v.push("atoma");
    v.push("venice");
    v.push("akash");
    v.push("tensoropera");
    v.push("featherless");
    v.push("ollama");
    v
}

/// The keys found for the providers, later providers overriding earlier
/// ones of the same name; providers without a key are left out.
pub open spec fn collected_keys(providers: Seq<Seq<char>>, found: Seq<Option<String>>) -> Map<
    Seq<char>,
    Seq<char>,
>
    decreases providers.len(),
{
    if providers.len() == 0 || found.len() != providers.len() {
        Map::empty()
    } else {
        let m = collected_keys(providers.drop_last(), found.drop_last());
        match found.last() {
            Some(k) => m.insert(providers.last(), k@),
            None => m,
        }
    }
}

/// Gather the API keys that the keychain returned for `providers`
/// (`found[i]` is the lookup result for `providers[i]`).
pub fn get_all_api_keys(providers: &[&str], found: &[Option<String>]) -> (r: KeyMap)
    requires
        found@.len() == providers@.len(),
    ensures
        r@ == collected_keys(providers@.map_values(|p: &str| p@), found@),
{
    let ghost ps = providers@.map_values(|p: &str| p@);
    let mut keys = KeyMap::new();
    let mut i: usize = 0;
    while i < providers.len()
        invariant
            i <= providers@.len(),
            found@.len() == providers@.len(),
            ps == providers@.map_values(|p: &str| p@),
            keys@ == collected_keys(ps.take(i as int), found@.take(i as int)),
        decreases providers@.len() - i,
    {
        proof {
            assert(ps.take(i + 1).drop_last() =~= ps.take(i as int));
            assert(found@.take(i + 1).drop_last() =~= found@.take(i as int));
        }
        match &found[i] {
            Some(key) => {
                keys.insert(providers[i].to_owned(), key.clone());
            },
            None => {},
        }
        i = i + 1;
    }
    proof {
        assert(ps.take(providers@.len() as int) =~= ps);
        assert(found@.take(providers@.len() as int) =~= found@);
    }
    keys
}

/// The lookup results agree wherever a provider is named twice: the
/// keychain gives one answer per provider.
pub open spec fn consistent_lookups(providers: Seq<Seq<char>>, found: Seq<Option<String>>) -> bool {
    &&& found.len() == providers.len()
    &&& forall|i: int, j: int|
        0 <= i < providers.len() && 0 <= j < providers.len() && providers[i] == providers[j] ==> (
        #[trigger] found[i] is Some) == (#[trigger] found[j] is Some) && (found[i] matches Some(a)
            ==> (found[j] matches Some(b) && a@ == b@))
}

/// Every provider maps to the key found for it, exactly when one was found,
/// and the result names no other provider.
pub proof fn collected_keys_follow_lookups(providers: Seq<Seq<char>>, found: Seq<Option<String>>)
    requires
        consistent_lookups(providers, found),
    ensures
        forall|i: int|
            0 <= i < providers.len() ==> (collected_keys(providers, found).dom().contains(
                #[trigger] providers[i],
            ) <==> found[i] is Some),
        forall|i: int|
            0 <= i < providers.len() && (#[trigger] found[i]) is Some ==> collected_keys(
                providers,
                found,
            )[providers[i]] == found[i]->0@,
        forall|k: Seq<char>|
            #[trigger] collected_keys(providers, found).dom().contains(k) ==> exists|i: int|
                0 <= i < providers.len() && providers[i] == k,
    decreases providers.len(),
{
    if providers.len() > 0 {
        let n = providers.len() - 1;
        let ps = providers.drop_last();
        let fs = found.drop_last();
        assert(consistent_lookups(ps, fs)) by {
            assert forall|i: int, j: int|
                0 <= i < ps.len() && 0 <= j < ps.len() && ps[i] == ps[j] implies (
                #[trigger] fs[i] is Some) == (#[trigger] fs[j] is Some) && (fs[i] matches Some(a)
                    ==> (fs[j] matches Some(b) && a@ == b@)) by {
                assert(found[i] == fs[i] && found[j] == fs[j]);
                assert(providers[i] == ps[i] && providers[j] == ps[j]);
            }
        }
        collected_keys_follow_lookups(ps, fs);
        let m = collected_keys(ps, fs);
        let r = collected_keys(providers, found);
        assert forall|i: int| 0 <= i < providers.len() implies (r.dom().contains(
            #[trigger] providers[i],
        ) <==> found[i] is Some) && (found[i] is Some ==> r[providers[i]] == found[i]->0@) by {
            if i < n {
                assert(providers[i] == ps[i] && found[i] == fs[i]);
                if providers[i] == providers[n] {
                    assert(found[i] is Some == found[n] is Some);
                }
            } else {
                if found[n] is None && m.dom().contains(providers[n]) {
                    let j = choose|j: int| 0 <= j < ps.len() && ps[j] == providers[n];
                    assert(providers[j] == ps[j] && found[j] == fs[j]);
                    assert(found[j] is Some == found[n] is Some);
                }
            }
        }
        assert forall|k: Seq<char>| #[trigger] r.dom().contains(k) implies exists|i: int|
            0 <= i < providers.len() && providers[i] == k by {
            if k == providers[n] {
                assert(providers[n] == k);
            } else {
                assert(m.dom().contains(k));
                let j = choose|j: int| 0 <= j < ps.len() && ps[j] == k;
                assert(providers[j] == ps[j]);
            }
        }
    }
}

/// Whatever the keychain answers, a provider is in the result exactly when a
/// key was found for one of its lookups, and it maps to the key of the last
/// lookup for it that found one.
pub proof fn collected_keys_are_the_last_found(providers: Seq<Seq<char>>, found: Seq<Option<String>>)
    requires
        found.len() == providers.len(),
    ensures
        forall|k: Seq<char>|
            #[trigger] collected_keys(providers, found).dom().contains(k) <==> exists|i: int|
                0 <= i < providers.len() && providers[i] == k && found[i] is Some,
        forall|i: int|
            0 <= i < providers.len() && (#[trigger] found[i]) is Some && (forall|j: int|
                i < j < providers.len() && providers[j] == providers[i] ==> found[j] is None)
                ==> collected_keys(providers, found)[providers[i]] == found[i]->0@,
    decreases providers.len(),
{
    if providers.len() > 0 {
        let n = providers.len() - 1;
        let ps = providers.drop_last();
        let fs = found.drop_last();
        collected_keys_are_the_last_found(ps, fs);
        let m = collected_keys(ps, fs);
        let r = collected_keys(providers, found);
        assert forall|k: Seq<char>| #[trigger] r.dom().contains(k) <==> exists|i: int|
            0 <= i < providers.len() && providers[i] == k && found[i] is Some by {
            if r.dom().contains(k) {
                if found[n] is Some && k == providers[n] {
                } else {
                    assert(m.dom().contains(k));
                    let i = choose|i: int| 0 <= i < ps.len() && ps[i] == k && fs[i] is Some;
                    assert(providers[i] == ps[i] && found[i] == fs[i]);
                }
            }
            if exists|i: int| 0 <= i < providers.len() && providers[i] == k && found[i] is Some {
                let i = choose|i: int| 0 <= i < providers.len() && providers[i] == k && found[i] is Some;
                if i < n {
                    assert(ps[i] == providers[i] && fs[i] == found[i]);
                    assert(m.dom().contains(k));
                }
            }
        }
        assert forall|i: int|
            0 <= i < providers.len() && (#[trigger] found[i]) is Some && (forall|j: int|
                i < j < providers.len() && providers[j] == providers[i] ==> found[j] is None)
                implies r[providers[i]] == found[i]->0@ by {
            if i < n {
                assert(ps[i] == providers[i] && fs[i] == found[i]);
                assert forall|j: int| i < j < ps.len() && ps[j] == ps[i] implies fs[j] is None by {
                    assert(ps[j] == providers[j] && fs[j] == found[j]);
                }
                if found[n] is Some {
                    assert(providers[n] != providers[i]);
                }
            }
        }
    }
}

/// Holds of entries with a non-empty key.
pub open spec fn has_nonempty_key() -> spec_fn((Seq<char>, Seq<char>)) -> bool {
    |e: (Seq<char>, Seq<char>)| e.1.len() > 0
}

/// No provider occurs twice among the pairs.
pub open spec fn providers_distinct(pairs: Seq<(String, String)>) -> bool {
    forall|i: int, j: int| 0 <= i < j < pairs.len() ==> (#[trigger] pairs[i]).0@ != (#[trigger] pairs[j]).0@
}

/// The configured keys worth moving to the keychain: those that are not
/// empty, in the map's order, each provider once.
pub fn plaintext_keys_to_migrate(plaintext_keys: &KeyMap) -> (r: Vec<(String, String)>)
    ensures
        r@.map_values(|e: (String, String)| (e.0@, e.1@)) == plaintext_keys.pairs().filter(
            has_nonempty_key(),
        ),
        providers_distinct(r@),
{
    let all = plaintext_keys.entries();
    let ghost p = plaintext_keys.pairs();
    let mut out: Vec<(String, String)> = Vec::new();
    let mut i: usize = 0;
    while i < all.len()
        invariant
            i <= all@.len(),
            p == all@.map_values(|e: (String, String)| (e.0@, e.1@)),
            out@.map_values(|e: (String, String)| (e.0@, e.1@)) == p.take(i as int).filter(
                has_nonempty_key(),
            ),
            keys_distinct(p),
            providers_distinct(out@),
            forall|t: int| 0 <= t < out@.len() ==> exists|j: int| 0 <= j < i && (#[trigger] out@[t]).0@ == p[j].0,
        decreases all@.len() - i,
    {
        proof {
            assert(p.take(i + 1).drop_last() =~= p.take(i as int));
            assert(p.take(i + 1).last() == p[i as int]);
            reveal(Seq::filter);
        }
        if !all[i].1.as_str().is_empty() {
            let ghost before = out@;
            out.push((all[i].0.clone(), all[i].1.clone()));
            proof {
                assert(out@.map_values(|e: (String, String)| (e.0@, e.1@)) =~= before.map_values(
                    |e: (String, String)| (e.0@, e.1@),
                ).push(p[i as int]));
                assert(out@[before.len() as int].0@ == p[i as int].0);
                assert forall|t: int| 0 <= t < out@.len() implies exists|j: int|
                    0 <= j < i + 1 && (#[trigger] out@[t]).0@ == p[j].0 by {
                    if t < before.len() {
                        assert(out@[t] == before[t]);
                        let j = choose|j: int| 0 <= j < i && before[t].0@ == p[j].0;
                        assert(out@[t].0@ == p[j].0);
                    } else {
                        assert(out@[t].0@ == p[i as int].0);
                    }
                }
                assert forall|a: int, b: int| 0 <= a < b < out@.len() implies (#[trigger] out@[a]).0@
                    != (#[trigger] out@[b]).0@ by {
                    if b == before.len() {
                        assert(out@[a] == before[a]);
                        let j = choose|j: int| 0 <= j < i && before[a].0@ == p[j].0;
                        assert(p[j].0 != p[i as int].0);
                    } else {
                        assert(out@[a] == before[a] && out@[b] == before[b]);
                    }
                }
            }
        }
        i = i + 1;
    }
    proof {
        assert(p.take(all@.len() as int) =~= p);
    }
    out
}

/// The providers whose keys were stored: `stored[i]` tells whether moving
/// `attempted[i]` into the keychain succeeded.
pub open spec fn stored_providers(attempted: Seq<(String, String)>, stored: Seq<bool>) -> Seq<
    Seq<char>,
>
    decreases attempted.len(),
{
    if attempted.len() == 0 || stored.len() != attempted.len() {
        Seq::empty()
    } else {
        let rest = stored_providers(attempted.drop_last(), stored.drop_last());
        if stored.last() {
            rest.push(attempted.last().0@)
        } else {
            rest
        }
    }
}

/// The providers that were moved to the keychain, in the order attempted;
/// no provider is named twice when none was attempted twice.
pub fn migrate_plaintext_keys(attempted: &[(String, String)], stored: &[bool]) -> (r: Vec<String>)
    requires
        stored@.len() == attempted@.len(),
    ensures
        r@.map_values(|s: String| s@) == stored_providers(attempted@, stored@),
        providers_distinct(attempted@) ==> forall|i: int, j: int|
            0 <= i < j < r@.len() ==> (#[trigger] r@[i])@ != (#[trigger] r@[j])@,
{
    let mut out: Vec<String> = Vec::new();
    let ghost mut src: Seq<int> = Seq::empty();
    let mut i: usize = 0;
    while i < attempted.len()
        invariant
            i <= attempted@.len(),
            stored@.len() == attempted@.len(),
            out@.map_values(|s: String| s@) == stored_providers(
                attempted@.take(i as int),
                stored@.take(i as int),
            ),
            src.len() == out@.len(),
            forall|t: int| 0 <= t < out@.len() ==> 0 <= #[trigger] src[t] < i && out@[t]@ == attempted@[src[t]].0@,
            forall|a: int, b: int| 0 <= a < b < out@.len() ==> #[trigger] src[a] < #[trigger] src[b],
        decreases attempted@.len() - i,
    {
        proof {
            assert(attempted@.take(i + 1).drop_last() =~= attempted@.take(i as int));
            assert(stored@.take(i + 1).drop_last() =~= stored@.take(i as int));
        }
        if stored[i] {
            let ghost before = out@;
            out.push(attempted[i].0.clone());
            proof {
                assert(out@.map_values(|s: String| s@) =~= before.map_values(|s: String| s@).push(
                    attempted@[i as int].0@,
                ));
                src = src.push(i as int);
                assert forall|t: int| 0 <= t < out@.len() implies 0 <= #[trigger] src[t] < i + 1
                    && out@[t]@ == attempted@[src[t]].0@ by {
                    if t < before.len() {
                        assert(out@[t] == before[t]);
                    }
                }
            }
        }
        i = i + 1;
    }
    proof {
        assert(attempted@.take(attempted@.len() as int) =~= attempted@);
        assert(stored@.take(attempted@.len() as int) =~= stored@);
        if providers_distinct(attempted@) {
            assert forall|a: int, b: int| 0 <= a < b < out@.len() implies (#[trigger] out@[a])@
                != (#[trigger] out@[b])@ by {
                assert(src[a] < src[b]);
                assert(attempted@[src[a]].0@ != attempted@[src[b]].0@);
            }
        }
    }
    out
}

} // verus!
