//! Tips shown while a cloud agent run is loading.

use vstd::prelude::*;

use crate::catalog::CatalogBundle;
use crate::locale::LocaleId;
use crate::localization::{bundle_text, text_for_locale};

verus! {

/// A loading-screen tip: the catalog key of its text and an optional link.
#[derive(Clone, Debug)]
pub struct CloudModeTip {
    text_key: &'static str,
    link: Option<String>,
}

pub open spec fn opt_str_view(o: Option<String>) -> Option<Seq<char>> {
    match o {
        Some(s) => Some(s@),
        None => None,
    }
}

impl CloudModeTip {
    /// The catalog key of the tip's text, as a spec value.
    pub closed spec fn text_key_spec(&self) -> &'static str {
        self.text_key
    }

    /// The link of the tip, as a spec value.
    pub closed spec fn link_spec(&self) -> Option<Seq<char>> {
        opt_str_view(self.link)
    }

    pub fn new(text_key: &'static str, link: Option<&str>) -> (r: CloudModeTip)
        ensures
            r.text_key_spec() == text_key,
            r.link_spec() == match link {
                Some(l) => Some(l@),
                None => None::<Seq<char>>,
            },
    {
        let link = match link {
            Some(l) => Some(l.to_owned()),
            None => None,
        };
        CloudModeTip { text_key, link }
    }

    /// The link of the tip.
    pub fn link(&self) -> (r: Option<String>)
        ensures
            opt_str_view(r) == self.link_spec(),
    {
        match &self.link {
            Some(l) => Some(l.clone()),
            None => None,
        }
    }

    /// The catalog key of the tip's text.
    pub fn description(&self) -> (r: &str)
        ensures
            r == self.text_key_spec(),
    {
        self.text_key
    }
}

/// The text a tip shows: the localized tip prefix followed by its localized text.
pub fn tip_text(bundle: &CatalogBundle, locale: LocaleId, tip: &CloudModeTip) -> (r: String)
    ensures
        r@ == bundle_text(bundle, locale, "agent.tips.prefix"@) + bundle_text(
            bundle,
            locale,
            tip.text_key_spec()@,
        ),
{
    let mut text = text_for_locale(bundle, locale, "agent.tips.prefix");
    let description = text_for_locale(bundle, locale, tip.description());
    vstd::string::StringExecFns::append(&mut text, description.as_str());
    text
}

/// The tips of the cloud mode loading screen: (catalog key, link) in the order shown.
pub open spec fn cloud_mode_tip_table() -> Seq<(&'static str, &'static str)> {
    seq![
        ("terminal.ambient_agent.tip.01", "https://docs.warp.dev/agent-platform/cloud-agents/integrations/slack"),
        ("terminal.ambient_agent.tip.02", "https://docs.warp.dev/reference/api-and-sdk"),
        ("terminal.ambient_agent.tip.03", "https://docs.warp.dev/agent-platform/cloud-agents/secrets"),
        ("terminal.ambient_agent.tip.04", "https://oz.warp.dev"),
        ("terminal.ambient_agent.tip.05", "https://docs.warp.dev/agent-platform/cloud-agents/viewing-cloud-agent-runs"),
        ("terminal.ambient_agent.tip.06", "https://docs.warp.dev/agent-platform/cloud-agents/triggers/scheduled-agents"),
        ("terminal.ambient_agent.tip.07", "https://docs.warp.dev/agent-platform/cloud-agents/integrations/linear"),
        ("terminal.ambient_agent.tip.08", "https://docs.warp.dev/agent-platform/cloud-agents/integrations/github-actions"),
        ("terminal.ambient_agent.tip.09", "https://github.com/warpdotdev/oz-agent-action"),
        ("terminal.ambient_agent.tip.10", "https://docs.warp.dev/reference/api-and-sdk"),
        ("terminal.ambient_agent.tip.11", "https://docs.warp.dev/agent-platform/cloud-agents/environments"),
        ("terminal.ambient_agent.tip.12", "https://docs.warp.dev/agent-platform/cloud-agents/viewing-cloud-agent-runs"),
        ("terminal.ambient_agent.tip.13", "https://docs.warp.dev/agent-platform/cloud-agents/platform"),
        ("terminal.ambient_agent.tip.14", "https://docs.warp.dev/agent-platform/cloud-agents/viewing-cloud-agent-runs"),
        ("terminal.ambient_agent.tip.15", "https://docs.warp.dev/agent-platform/cloud-agents/integrations"),
        ("terminal.ambient_agent.tip.16", "https://docs.warp.dev/agent-platform/cloud-agents/triggers/scheduled-agents"),
        ("terminal.ambient_agent.tip.17", "https://docs.warp.dev/agent-platform/cloud-agents/integrations/linear"),
        ("terminal.ambient_agent.tip.18", "https://docs.warp.dev/agent-platform/cloud-agents/platform"),
        ("terminal.ambient_agent.tip.19", "https://docs.warp.dev/agent-platform/capabilities/mcp"),
        ("terminal.ambient_agent.tip.20", "https://docs.warp.dev/agent-platform/cloud-agents/platform"),
        ("terminal.ambient_agent.tip.21", "https://oz.warp.dev"),
        ("terminal.ambient_agent.tip.22", "https://docs.warp.dev/agent-platform/cloud-agents/integrations/github-actions"),
        ("terminal.ambient_agent.tip.23", "https://docs.warp.dev/agent-platform/cloud-agents/integrations/github-actions"),
        ("terminal.ambient_agent.tip.24", "https://docs.warp.dev/agent-platform/cloud-agents/integrations/github-actions"),
        ("terminal.ambient_agent.tip.25", "https://docs.warp.dev/agent-platform/cloud-agents/environments"),
        ("terminal.ambient_agent.tip.26", "https://docs.warp.dev/reference/api-and-sdk"),
        ("terminal.ambient_agent.tip.27", "https://docs.warp.dev/agent-platform/cloud-agents/triggers"),
        ("terminal.ambient_agent.tip.28", "https://docs.warp.dev/agent-platform/cloud-agents/secrets"),
        ("terminal.ambient_agent.tip.29", "https://docs.warp.dev/agent-platform/cloud-agents/secrets"),
        ("terminal.ambient_agent.tip.30", "https://docs.warp.dev/agent-platform/cloud-agents/triggers/scheduled-agents"),
        ("terminal.ambient_agent.tip.31", "https://docs.warp.dev/agent-platform/cloud-agents/triggers/scheduled-agents"),
        ("terminal.ambient_agent.tip.32", "https://docs.warp.dev/agent-platform/cloud-agents/triggers/scheduled-agents"),
        ("terminal.ambient_agent.tip.33", "https://docs.warp.dev/agent-platform/cloud-agents/triggers/scheduled-agents"),
        ("terminal.ambient_agent.tip.34", "https://docs.warp.dev/agent-platform/capabilities/mcp"),
        ("terminal.ambient_agent.tip.35", "https://docs.warp.dev/agent-platform/cloud-agents/integrations/slack"),
        ("terminal.ambient_agent.tip.36", "https://docs.warp.dev/agent-platform/cloud-agents/integrations/slack"),
        ("terminal.ambient_agent.tip.37", "https://docs.warp.dev/reference/api-and-sdk"),
        ("terminal.ambient_agent.tip.38", "https://docs.warp.dev/reference/api-and-sdk"),
        ("terminal.ambient_agent.tip.39", "https://docs.warp.dev/reference/api-and-sdk"),
        ("terminal.ambient_agent.tip.40", "https://docs.warp.dev/reference/api-and-sdk"),
    ]
}

/// Returns the tips for the cloud mode loading screen.
pub fn get_cloud_mode_tips() -> (r: Vec<CloudModeTip>)
    ensures
        r@.len() == cloud_mode_tip_table().len(),
        forall|i: int|
            0 <= i < r@.len() ==> {
                &&& (#[trigger] r@[i]).text_key_spec() == cloud_mode_tip_table()[i].0
                &&& r@[i].link_spec() == Some(cloud_mode_tip_table()[i].1@)
            },
{
    let table: [(&'static str, &'static str); 40] = [
        ("terminal.ambient_agent.tip.01", "https://docs.warp.dev/agent-platform/cloud-agents/integrations/slack"),
        ("terminal.ambient_agent.tip.02", "https://docs.warp.dev/reference/api-and-sdk"),
        ("terminal.ambient_agent.tip.03", "https://docs.warp.dev/agent-platform/cloud-agents/secrets"),
        ("terminal.ambient_agent.tip.04", "https://oz.warp.dev"),
        ("terminal.ambient_agent.tip.05", "https://docs.warp.dev/agent-platform/cloud-agents/viewing-cloud-agent-runs"),
        ("terminal.ambient_agent.tip.06", "https://docs.warp.dev/agent-platform/cloud-agents/triggers/scheduled-agents"),
        ("terminal.ambient_agent.tip.07", "https://docs.warp.dev/agent-platform/cloud-agents/integrations/linear"),
        ("terminal.ambient_agent.tip.08", "https://docs.warp.dev/agent-platform/cloud-agents/integrations/github-actions"),
        ("terminal.ambient_agent.tip.09", "https://github.com/warpdotdev/oz-agent-action"),
        ("terminal.ambient_agent.tip.10", "https://docs.warp.dev/reference/api-and-sdk"),
        ("terminal.ambient_agent.tip.11", "https://docs.warp.dev/agent-platform/cloud-agents/environments"),
        ("terminal.ambient_agent.tip.12", "https://docs.warp.dev/agent-platform/cloud-agents/viewing-cloud-agent-runs"),
        ("terminal.ambient_agent.tip.13", "https://docs.warp.dev/agent-platform/cloud-agents/platform"),
        ("terminal.ambient_agent.tip.14", "https://docs.warp.dev/agent-platform/cloud-agents/viewing-cloud-agent-runs"),
        ("terminal.ambient_agent.tip.15", "https://docs.warp.dev/agent-platform/cloud-agents/integrations"),
        ("terminal.ambient_agent.tip.16", "https://docs.warp.dev/agent-platform/cloud-agents/triggers/scheduled-agents"),
        ("terminal.ambient_agent.tip.17", "https://docs.warp.dev/agent-platform/cloud-agents/integrations/linear"),
        ("terminal.ambient_agent.tip.18", "https://docs.warp.dev/agent-platform/cloud-agents/platform"),
        ("terminal.ambient_agent.tip.19", "https://docs.warp.dev/agent-platform/capabilities/mcp"),
        ("terminal.ambient_agent.tip.20", "https://docs.warp.dev/agent-platform/cloud-agents/platform"),
        ("terminal.ambient_agent.tip.21", "https://oz.warp.dev"),
        ("terminal.ambient_agent.tip.22", "https://docs.warp.dev/agent-platform/cloud-agents/integrations/github-actions"),
        ("terminal.ambient_agent.tip.23", "https://docs.warp.dev/agent-platform/cloud-agents/integrations/github-actions"),
        ("terminal.ambient_agent.tip.24", "https://docs.warp.dev/agent-platform/cloud-agents/integrations/github-actions"),
        ("terminal.ambient_agent.tip.25", "https://docs.warp.dev/agent-platform/cloud-agents/environments"),
        ("terminal.ambient_agent.tip.26", "https://docs.warp.dev/reference/api-and-sdk"),
        ("terminal.ambient_agent.tip.27", "https://docs.warp.dev/agent-platform/cloud-agents/triggers"),
        ("terminal.ambient_agent.tip.28", "https://docs.warp.dev/agent-platform/cloud-agents/secrets"),
        ("terminal.ambient_agent.tip.29", "https://docs.warp.dev/agent-platform/cloud-agents/secrets"),
        ("terminal.ambient_agent.tip.30", "https://docs.warp.dev/agent-platform/cloud-agents/triggers/scheduled-agents"),
        ("terminal.ambient_agent.tip.31", "https://docs.warp.dev/agent-platform/cloud-agents/triggers/scheduled-agents"),
        ("terminal.ambient_agent.tip.32", "https://docs.warp.dev/agent-platform/cloud-agents/triggers/scheduled-agents"),
        ("terminal.ambient_agent.tip.33", "https://docs.warp.dev/agent-platform/cloud-agents/triggers/scheduled-agents"),
        ("terminal.ambient_agent.tip.34", "https://docs.warp.dev/agent-platform/capabilities/mcp"),
        ("terminal.ambient_agent.tip.35", "https://docs.warp.dev/agent-platform/cloud-agents/integrations/slack"),
        ("terminal.ambient_agent.tip.36", "https://docs.warp.dev/agent-platform/cloud-agents/integrations/slack"),
        ("terminal.ambient_agent.tip.37", "https://docs.warp.dev/reference/api-and-sdk"),
        ("terminal.ambient_agent.tip.38", "https://docs.warp.dev/reference/api-and-sdk"),
        ("terminal.ambient_agent.tip.39", "https://docs.warp.dev/reference/api-and-sdk"),
        ("terminal.ambient_agent.tip.40", "https://docs.warp.dev/reference/api-and-sdk"),
    ];
    assert(table@ =~= cloud_mode_tip_table());
    let mut tips: Vec<CloudModeTip> = Vec::new();
    let mut i: usize = 0;
    while i < 40
        invariant
            table@ == cloud_mode_tip_table(),
            i <= 40,
            tips@.len() == i,
            forall|k: int|
                0 <= k < i ==> {
                    &&& (#[trigger] tips@[k]).text_key_spec() == cloud_mode_tip_table()[k].0
                    &&& tips@[k].link_spec() == Some(cloud_mode_tip_table()[k].1@)
                },
        decreases 40 - i,
    {
        let (key, link) = table[i];
        tips.push(CloudModeTip::new(key, Some(link)));
        i = i + 1;
    }
    tips
}

} // verus!
