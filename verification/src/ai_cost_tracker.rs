//! The AI cost tracker: which price applies to a response, for how many
//! tokens, and under which metric labels. The price arithmetic itself is in
//! floating point and stays with the caller.

use vstd::prelude::*;
use crate::text::{parse_u64, parse_unsigned, push_str, replace_seq, replace_str, str_eq, views};

verus! {

/// What to record for a response.
pub enum CostStep {
    /// Nothing: provider, model or token counts are missing.
    Skip,
    /// No price is configured for this `provider/model` key.
    UnknownModel(String),
    /// Charge the price at `price` (an index into the price keys) for the
    /// token counts, under the labels.
    Charge { price: usize, prompt_tokens: u64, completion_tokens: u64, labels: String },
}

/// A label value with `\` and `"` escaped.
pub open spec fn escaped(s: Seq<char>) -> Seq<char> {
    replace_seq(replace_seq(s, seq!['\\'], seq!['\\', '\\']), seq!['"'], seq!['\\', '"'])
}

/// The labels of a cost: `{"provider":"<p>","model":"<m>"}`.
pub open spec fn cost_labels(provider: Seq<char>, model: Seq<char>) -> Seq<char> {
    "{\"provider\":\""@ + escaped(provider) + "\",\"model\":\""@ + escaped(model) + "\"}"@
}

/// A token count from the context, 0 when absent or not a `u64`.
pub open spec fn count_u64(v: Option<Seq<char>>) -> u64 {
    match v {
        Some(s) => match parse_unsigned(s, u64::MAX as nat) { Some(n) => n as u64, None => 0 },
        None => 0,
    }
}

/// The first index of `k` among the keys.
pub open spec fn key_index(keys: Seq<Seq<char>>, k: Seq<char>) -> Option<int> {
    if exists|i: int| 0 <= i < keys.len() && keys[i] == k {
        Some(choose|i: int| 0 <= i < keys.len() && keys[i] == k && forall|j: int| 0 <= j < i ==> keys[j] != k)
    } else {
        None
    }
}

/// Escapes a label value.
pub fn escape_label(s: &str) -> (r: String)
    ensures
        r@ == escaped(s@),
{
    let mut bs = String::new();
    crate::text::push_char(&mut bs, '\\');
    let mut bs2 = String::new();
    crate::text::push_char(&mut bs2, '\\');
    crate::text::push_char(&mut bs2, '\\');
    let mut q = String::new();
    crate::text::push_char(&mut q, '"');
    let mut q2 = String::new();
    crate::text::push_char(&mut q2, '\\');
    crate::text::push_char(&mut q2, '"');
    assert(bs@ =~= seq!['\\']);
    assert(bs2@ =~= seq!['\\', '\\']);
    assert(q@ =~= seq!['"']);
    assert(q2@ =~= seq!['\\', '"']);
    let once = replace_str(s, bs.as_str(), bs2.as_str());
    replace_str(once.as_str(), q.as_str(), q2.as_str())
}

/// The metric labels of a cost.
pub fn labels_provider_model(provider: &str, model: &str) -> (r: String)
    ensures
        r@ == cost_labels(provider@, model@),
{
    let mut s = crate::text::owned("{\"provider\":\"");
    push_str(&mut s, escape_label(provider).as_str());
    push_str(&mut s, "\",\"model\":\"");
    push_str(&mut s, escape_label(model).as_str());
    push_str(&mut s, "\"}");
    s
}

/// Decides what to record for a response from the context's provider,
/// model and token counts, and the configured price keys (`provider/model`).
pub fn cost_step(price_keys: &Vec<String>, provider: Option<&str>, model: Option<&str>, prompt: Option<&str>,
    completion: Option<&str>) -> (r: CostStep)
    ensures
        match (provider, model) {
            (Some(p), Some(m)) => {
                let key = p@ + seq!['/'] + m@;
                match key_index(views(price_keys@), key) {
                    None => r matches CostStep::UnknownModel(k) && k@ == key,
                    Some(i) => {
                        let pt = count_u64(match prompt { Some(s) => Some(s@), None => None });
                        let ct = count_u64(match completion { Some(s) => Some(s@), None => None });
                        if pt == 0 && ct == 0 {
                            r is Skip
                        } else {
                            r matches CostStep::Charge { price, prompt_tokens, completion_tokens, labels }
                                && price == i && prompt_tokens == pt && completion_tokens == ct && labels@ == cost_labels(p@, m@)
                        }
                    },
                }
            },
            _ => r is Skip,
        },
{
    let (p, m) = match (provider, model) {
        (Some(p), Some(m)) => (p, m),
        _ => return CostStep::Skip,
    };
    let mut key = crate::text::owned(p);
    crate::text::push_char(&mut key, '/');
    push_str(&mut key, m);
    assert(key@ =~= p@ + seq!['/'] + m@);
    let ghost kv = views(price_keys@);
    let mut i: usize = 0;
    let mut found: Option<usize> = None;
    while i < price_keys.len()
        invariant
            i <= price_keys@.len(),
            kv == views(price_keys@),
            found is None ==> forall|j: int| 0 <= j < i ==> kv[j] != key@,
            found matches Some(f) ==> f < price_keys@.len() && kv[f as int] == key@ && forall|j: int| 0 <= j < f ==> kv[j] != key@,
        decreases price_keys@.len() - i,
    {
        if found.is_none() && str_eq(price_keys[i].as_str(), key.as_str()) {
            found = Some(i);
        }
        i = i + 1;
    }
    let idx = match found {
        Some(f) => {
            proof {
                assert(0 <= f < kv.len() && kv[f as int] == key@);
                let w = choose|x: int| 0 <= x < kv.len() && kv[x] == key@ && forall|j: int| 0 <= j < x ==> kv[j] != key@;
                assert(0 <= f < kv.len() && kv[f as int] == key@);
                if w < f { assert(kv[w] != key@); }
                if w > f { assert(kv[f as int] != key@); }
            }
            f
        },
        None => {
            assert(key_index(kv, key@) is None);
            return CostStep::UnknownModel(key);
        },
    };
    assert(key_index(kv, key@) == Some(idx as int));
    let pt: u64 = match prompt {
        Some(s) => match parse_u64(s) { Some(n) => n, None => 0 },
        None => 0,
    };
    let ct: u64 = match completion {
        Some(s) => match parse_u64(s) { Some(n) => n, None => 0 },
        None => 0,
    };
    if pt == 0 && ct == 0 {
        return CostStep::Skip;
    }
    CostStep::Charge { price: idx, prompt_tokens: pt, completion_tokens: ct, labels: labels_provider_model(p, m) }
}

} // verus!
