//! The set of running platforms and how they are made from configuration.
use vstd::prelude::*;

use crate::config::{extra_get_str, extra_str, PlatformConfig};
use crate::text::{str_eq, string_from};

verus! {

/// The platforms in use, in the order they were added.
pub struct PlatformManager<P> {
    pub platforms: Vec<P>,
}

/// What to do with one enabled platform configuration.
#[derive(Debug)]
pub enum PlatformPlan {
    /// Start a personal WeChat adapter.
    WeixinOC { id: String, base_url: String, cdn_base_url: String, token: Option<String> },
    /// The platform type is not supported; it is skipped.
    Unsupported(String),
}

/// A platform plan as the specification sees it.
pub enum PlatformPlanSpec {
    WeixinOC(Seq<char>, Seq<char>, Seq<char>, Option<Seq<char>>),
    Unsupported(Seq<char>),
}

impl PlatformPlan {
    pub open spec fn spec(&self) -> PlatformPlanSpec {
        match self {
            PlatformPlan::WeixinOC { id, base_url, cdn_base_url, token } => PlatformPlanSpec::WeixinOC(
                id@,
                base_url@,
                cdn_base_url@,
                match token {
                    Some(t) => Some(t@),
                    None => None,
                },
            ),
            PlatformPlan::Unsupported(t) => PlatformPlanSpec::Unsupported(t@),
        }
    }
}

/// The plan for one enabled configuration.
pub open spec fn plan_for(cfg: PlatformConfig) -> PlatformPlanSpec {
    if cfg.platform_type@ == "weixin_oc"@ {
        PlatformPlanSpec::WeixinOC(
            cfg.id@,
            match extra_str(cfg.extra@, "weixin_oc_base_url"@) {
                Some(s) => s,
                None => "https://ilinkai.weixin.qq.com"@,
            },
            match extra_str(cfg.extra@, "weixin_oc_cdn_base_url"@) {
                Some(s) => s,
                None => "https://novac2c.cdn.weixin.qq.com/c2c"@,
            },
            extra_str(cfg.extra@, "weixin_oc_token"@),
        )
    } else {
        PlatformPlanSpec::Unsupported(cfg.platform_type@)
    }
}

/// Law: a `weixin_oc` configuration is planned under its own id with the API
/// address, CDN address and token that its extra values give as text; only where
/// an address is not given does the default stand in.
pub proof fn lemma_weixin_plan_uses_configuration(cfg: PlatformConfig)
    requires
        cfg.platform_type@ == "weixin_oc"@,
    ensures
        plan_for(cfg) matches PlatformPlanSpec::WeixinOC(id, base, cdn, token) && {
            &&& id == cfg.id@
            &&& (extra_str(cfg.extra@, "weixin_oc_base_url"@) matches Some(s) ==> base == s)
            &&& (extra_str(cfg.extra@, "weixin_oc_base_url"@) is None ==> base == "https://ilinkai.weixin.qq.com"@)
            &&& (extra_str(cfg.extra@, "weixin_oc_cdn_base_url"@) matches Some(s) ==> cdn == s)
            &&& (extra_str(cfg.extra@, "weixin_oc_cdn_base_url"@) is None ==> cdn
                == "https://novac2c.cdn.weixin.qq.com/c2c"@)
            &&& token == extra_str(cfg.extra@, "weixin_oc_token"@)
        },
{
}

/// Law: any other platform type is planned as unsupported, naming the type.
pub proof fn lemma_other_plan_unsupported(cfg: PlatformConfig)
    requires
        cfg.platform_type@ != "weixin_oc"@,
    ensures
        plan_for(cfg) == PlatformPlanSpec::Unsupported(cfg.platform_type@),
{
}

/// The plans for the enabled configurations, in order; disabled ones are skipped.
pub open spec fn platform_plans_spec(configs: Seq<PlatformConfig>) -> Seq<PlatformPlanSpec>
    decreases configs.len(),
{
    if configs.len() == 0 {
        Seq::empty()
    } else {
        let rest = platform_plans_spec(configs.drop_last());
        if configs.last().enable {
            rest.push(plan_for(configs.last()))
        } else {
            rest
        }
    }
}

fn plan_one(cfg: &PlatformConfig) -> (r: PlatformPlan)
    ensures
        r.spec() == plan_for(*cfg),
{
    if str_eq(cfg.platform_type.as_str(), "weixin_oc") {
        let base_url = match extra_get_str(&cfg.extra, "weixin_oc_base_url") {
            Some(s) => s,
            None => string_from("https://ilinkai.weixin.qq.com"),
        };
        let cdn_base_url = match extra_get_str(&cfg.extra, "weixin_oc_cdn_base_url") {
            Some(s) => s,
            None => string_from("https://novac2c.cdn.weixin.qq.com/c2c"),
        };
        let token = extra_get_str(&cfg.extra, "weixin_oc_token");
        PlatformPlan::WeixinOC { id: cfg.id.clone(), base_url, cdn_base_url, token }
    } else {
        PlatformPlan::Unsupported(cfg.platform_type.clone())
    }
}

impl<P> PlatformManager<P> {
    pub fn new() -> (r: PlatformManager<P>)
        ensures
            r.platforms@.len() == 0,
    {
        PlatformManager { platforms: Vec::new() }
    }

    pub fn add(&mut self, platform: P)
        ensures
            final(self).platforms@ == old(self).platforms@.push(platform),
    {
        self.platforms.push(platform);
    }

    /// What `load_from_config` starts: one plan per enabled configuration.
    pub fn plan_from_config(configs: &[PlatformConfig]) -> (r: Vec<PlatformPlan>)
        ensures
            Seq::new(r@.len(), |i: int| r@[i].spec()) == platform_plans_spec(configs@),
    {
        let mut out: Vec<PlatformPlan> = Vec::new();
        let mut i: usize = 0;
        while i < configs.len()
            invariant
                i <= configs@.len(),
                Seq::new(out@.len(), |j: int| out@[j].spec()) == platform_plans_spec(configs@.take(i as int)),
            decreases configs.len() - i,
        {
            assert(configs@.take(i + 1).drop_last() =~= configs@.take(i as int));
            let ghost before = Seq::new(out@.len(), |j: int| out@[j].spec());
            if configs[i].enable {
                let p = plan_one(&configs[i]);
                out.push(p);
                assert(Seq::new(out@.len(), |j: int| out@[j].spec()) =~= before.push(plan_for(configs@[i as int])));
            }
            i = i + 1;
        }
        assert(configs@.take(configs@.len() as int) =~= configs@);
        out
    }

    pub fn platforms(&self) -> (r: &[P])
        ensures
            r@ == self.platforms@,
    {
        self.platforms.as_slice()
    }

    pub fn len(&self) -> (r: usize)
        ensures
            r == self.platforms@.len(),
    {
        self.platforms.len()
    }

    pub fn is_empty(&self) -> (r: bool)
        ensures
            r == (self.platforms@.len() == 0),
    {
        self.platforms.len() == 0
    }
}

} // verus!
