//! Start-up decisions: which configured providers are built and how, and the
//! secret the dashboard signs its tokens with.
use vstd::prelude::*;

use crate::config::{DashboardConfig, ProviderConfig};
use crate::entropy::random_bytes;
use crate::platform::sources::weixin_oc::crypto::{hex_encode, hex_encoded};
use crate::provider::openai_compat::OpenAICompatProvider;
use crate::text::{str_eq, trim_end_char};
use crate::utils::error::AstrBotError;

verus! {

/// What becomes of an enabled provider entry.
#[derive(Debug)]
pub enum ProviderPlan {
    /// An OpenAI-compatible chat provider, ready to register under its id.
    OpenAICompat(OpenAICompatProvider),
    /// An entry of a type this build does not know; it is only reported.
    Unsupported { id: String, provider_type: String },
}

/// `o`'s text, or `d`.
pub open spec fn text_or(o: Option<String>, d: Seq<char>) -> Seq<char> {
    match o {
        Some(s) => s@,
        None => d,
    }
}

/// The plan for one enabled entry: an `openai_chat_completion` entry becomes a
/// provider with its id, its base URL (else `https://api.deepseek.com`), its API
/// key (else empty) and its model (else `deepseek-chat`); any other type is
/// unsupported.
pub open spec fn plan_for(plan: ProviderPlan, pc: ProviderConfig) -> bool {
    if pc.provider_type@ == "openai_chat_completion"@ {
        plan matches ProviderPlan::OpenAICompat(p)
            && p.provider_id@ == pc.id@
            && p.base_url@ == trim_end_char(text_or(pc.base_url, "https://api.deepseek.com"@), '/')
            && p.authorization@ == "Bearer "@ + text_or(pc.api_key, Seq::empty())
            && p.model@ == text_or(pc.model, "deepseek-chat"@)
            && p.max_attempts == 3
    } else {
        plan matches ProviderPlan::Unsupported { id, provider_type }
            && id@ == pc.id@
            && provider_type@ == pc.provider_type@
    }
}

/// The enabled entries, in order.
pub open spec fn enabled(configs: Seq<ProviderConfig>) -> Seq<ProviderConfig> {
    configs.filter(|c: ProviderConfig| c.enable)
}

fn opt_str<'a>(o: &'a Option<String>, d: &'a str) -> (r: &'a str)
    ensures
        r@ == text_or(*o, d@),
{
    match o {
        Some(s) => s.as_str(),
        None => d,
    }
}

/// The plans for the enabled provider entries, one each, in order; disabled
/// entries are passed over.
pub fn provider_plans(configs: &[ProviderConfig]) -> (r: Vec<ProviderPlan>)
    ensures
        r@.len() == enabled(configs@).len(),
        forall|k: int| 0 <= k < r@.len() ==> plan_for(#[trigger] r@[k], enabled(configs@)[k]),
{
    let mut plans: Vec<ProviderPlan> = Vec::new();
    let ghost cs = configs@;
    let mut i: usize = 0;
    while i < configs.len()
        invariant
            i <= cs.len(),
            cs == configs@,
            plans@.len() == enabled(cs.take(i as int)).len(),
            forall|k: int| 0 <= k < plans@.len() ==> plan_for(#[trigger] plans@[k], enabled(cs.take(i as int))[k]),
        decreases configs.len() - i,
    {
        proof {
            reveal_with_fuel(Seq::<ProviderConfig>::filter, 1);
            assert(cs.take(i + 1).drop_last() =~= cs.take(i as int));
        }
        let pc = &configs[i];
        if pc.enable {
            let ghost before = plans@;
            let plan = if str_eq(pc.provider_type.as_str(), "openai_chat_completion") {
                let base_url = opt_str(&pc.base_url, "https://api.deepseek.com");
                let api_key = opt_str(&pc.api_key, "");
                let model = opt_str(&pc.model, "deepseek-chat");
                proof {
                    reveal_strlit("");
                    assert(api_key@ == text_or(pc.api_key, Seq::empty()));
                }
                ProviderPlan::OpenAICompat(OpenAICompatProvider::new(pc.id.as_str(), base_url, api_key, model))
            } else {
                ProviderPlan::Unsupported { id: pc.id.clone(), provider_type: pc.provider_type.clone() }
            };
            proof {
                reveal_strlit("openai_chat_completion");
                reveal_strlit("https://api.deepseek.com");
                reveal_strlit("deepseek-chat");
            }
            assert(plan_for(plan, cs[i as int]));
            plans.push(plan);
            assert(enabled(cs.take(i + 1)) =~= enabled(cs.take(i as int)).push(cs[i as int]));
            assert forall|k: int| 0 <= k < plans@.len() implies plan_for(#[trigger] plans@[k], enabled(cs.take(i + 1))[k]) by {
                if k < before.len() {
                    assert(plans@[k] == before[k]);
                }
            }
        } else {
            assert(enabled(cs.take(i + 1)) =~= enabled(cs.take(i as int)));
        }
        i = i + 1;
    }
    assert(cs.take(cs.len() as int) =~= cs);
    plans
}

/// The secret tokens are signed with: the configured one, else the hex text of
/// `random`.
pub fn jwt_secret_with(dashboard: &DashboardConfig, random: &[u8]) -> (r: String)
    ensures
        r@ == match dashboard.jwt_secret {
            Some(s) => s@,
            None => hex_encoded(random@),
        },
{
    match &dashboard.jwt_secret {
        Some(s) => s.clone(),
        None => hex_encode(random),
    }
}

/// The secret tokens are signed with: the configured one, else a random
/// 32-character secret, the hex text of 16 random bytes. Fails only when no random
/// bytes could be had.
pub fn jwt_secret_from(dashboard: &DashboardConfig) -> (r: Result<String, AstrBotError>)
    ensures
        dashboard.jwt_secret matches Some(s) ==> (r matches Ok(t) && t@ == s@),
        dashboard.jwt_secret is None ==> (r matches Ok(t) ==> t@.len() == 32 && exists|b: Seq<u8>|
            b.len() == 16 && t@ == hex_encoded(b)),
        r matches Err(e) ==> e is Custom,
{
    if dashboard.jwt_secret.is_some() {
        return Ok(jwt_secret_with(dashboard, &[]));
    }
    match random_bytes(16) {
        Ok(b) => Ok(jwt_secret_with(dashboard, b.as_slice())),
        Err(e) => Err(AstrBotError::Custom(e)),
    }
}

} // verus!
