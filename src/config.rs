//! Site configuration.
use vstd::prelude::*;

use crate::output::{join_path, joined};
use crate::text::{replace_all, replaced};

verus! {

broadcast use vstd::string::group_string_axioms;

/// A navigation link.
#[derive(Debug)]
pub struct NavItem {
    pub name: String,
    pub link: String,
}

/// A contact entry shown by the contacts block.
#[derive(Debug)]
pub struct Contact {
    pub icon: String,
    pub name: String,
    pub address: String,
}

/// A free-form configuration section that an extension reads by its own name:
/// one or more records of named text fields.
#[derive(Debug)]
pub struct ConfigSection {
    pub name: String,
    pub records: Vec<Vec<(String, String)>>,
}

/// The site configuration.
#[derive(Debug)]
pub struct TimugConfig {
    pub title: String,
    pub description: String,
    pub blog_path: String,
    pub lang: String,
    pub theme: String,
    pub deployment_folder: String,
    pub site_url: String,
    pub author: String,
    pub email: String,
    pub contacts: Vec<Contact>,
    pub navs: Vec<NavItem>,
    pub sections: Vec<ConfigSection>,
}

/// The theme used when the configuration names none.
pub fn default_theme() -> (r: String)
    ensures
        r@ == seq!['d', 'e', 'f', 'a', 'u', 'l', 't'],
{
    proof {
        reveal_strlit("default");
    }
    let r = "default".to_string();
    assert(r@ =~= seq!['d', 'e', 'f', 'a', 'u', 'l', 't']);
    r
}

/// The language used when the configuration names none.
pub fn default_language() -> (r: String)
    ensures
        r@ == seq!['e', 'n'],
{
    proof {
        reveal_strlit("en");
    }
    let r = "en".to_string();
    assert(r@ =~= seq!['e', 'n']);
    r
}

/// The deployment folder used when the configuration names none: `public`
/// inside the project.
pub fn default_deployment_folder(blog_path: &str) -> (r: String)
    ensures
        r@ == joined(blog_path@, seq!['p', 'u', 'b', 'l', 'i', 'c']),
{
    proof {
        reveal_strlit("public");
        assert("public"@ =~= seq!['p', 'u', 'b', 'l', 'i', 'c']);
    }
    join_path(blog_path, "public")
}

impl TimugConfig {
    /// The position of the first section with the given name.
    pub open spec fn spec_section(&self, name: Seq<char>) -> Option<int> {
        first_section(self.sections@, name, 0)
    }

    /// The first configuration section with the given name; `None` when the
    /// configuration has no such section.
    pub fn get_config(&self, key: &str) -> (r: Option<&ConfigSection>)
        ensures
            match self.spec_section(key@) {
                Some(i) => r == Some(&self.sections@[i]),
                None => r is None,
            },
    {
        let wanted = key.to_string();
        let mut i: usize = 0;
        while i < self.sections.len()
            invariant
                wanted@ == key@,
                i <= self.sections@.len(),
                first_section(self.sections@, key@, i as int) == first_section(self.sections@, key@, 0),
            decreases self.sections.len() - i,
        {
            if self.sections[i].name == wanted {
                return Some(&self.sections[i]);
            }
            i = i + 1;
        }
        None
    }
}

/// The position of the first section at or after `i` with the given name.
pub open spec fn first_section(s: Seq<ConfigSection>, name: Seq<char>, i: int) -> Option<int>
    decreases s.len() - i,
{
    if i < 0 || i >= s.len() {
        None
    } else if s[i].name@ == name {
        Some(i)
    } else {
        first_section(s, name, i + 1)
    }
}

impl ConfigSection {
    /// The position of the field `key` in the first record, if there is one.
    pub open spec fn spec_field(&self, key: Seq<char>) -> Option<int> {
        if self.records@.len() == 0 {
            None
        } else {
            first_field(self.records@[0]@, key, 0)
        }
    }

    /// The value of a field in the first record, if the section has one and the
    /// field is there.
    pub fn field(&self, key: &str) -> (r: Option<&String>)
        ensures
            match self.spec_field(key@) {
                Some(i) => r == Some(&self.records@[0]@[i].1),
                None => r is None,
            },
    {
        if self.records.len() == 0 {
            return None;
        }
        let first = &self.records[0];
        let wanted = key.to_string();
        let mut i: usize = 0;
        while i < first.len()
            invariant
                wanted@ == key@,
                self.records@.len() > 0,
                *first == self.records@[0],
                i <= first@.len(),
                first_field(first@, key@, i as int) == first_field(first@, key@, 0),
            decreases first.len() - i,
        {
            if first[i].0 == wanted {
                return Some(&first[i].1);
            }
            i = i + 1;
        }
        None
    }
}

/// The position of the first field at or after `i` named `key`.
pub open spec fn first_field(r: Seq<(String, String)>, key: Seq<char>, i: int) -> Option<int>
    decreases r.len() - i,
{
    if i < 0 || i >= r.len() {
        None
    } else if r[i].0@ == key {
        Some(i)
    } else {
        first_field(r, key, i + 1)
    }
}

/// The theme's own configuration: its hooks, in declared order.
#[derive(Debug)]
pub struct TemplateConfig {
    pub name: String,
    pub pre_process: Vec<String>,
    pub process: Vec<String>,
    pub post_process: Vec<String>,
    pub git_repo: Option<String>,
    pub version: String,
}

/// The active theme: its configuration and its directory.
#[derive(Debug)]
pub struct Template {
    pub config: TemplateConfig,
    pub path: String,
}

impl Template {
    pub fn new(config: TemplateConfig, path: String) -> (r: Template)
        ensures
            r.config == config,
            r.path == path,
    {
        Template { config, path }
    }

    /// The post-generation hooks, with `{publish-folder}` replaced by the
    /// deployment path, in declared order.
    pub fn process_commands(&self, deploy: &str) -> (r: Vec<String>)
        ensures
            r@.len() == self.config.process@.len(),
            forall|i: int| 0 <= i < r@.len() ==> (#[trigger] r@[i])@ == replaced(
                self.config.process@[i]@,
                publish_folder_marker(),
                deploy@,
            ),
    {
        proof {
            reveal_strlit("{publish-folder}");
            assert("{publish-folder}"@ =~= publish_folder_marker());
        }
        let mut out: Vec<String> = Vec::new();
        let mut i: usize = 0;
        while i < self.config.process.len()
            invariant
                i <= self.config.process@.len(),
                out@.len() == i,
                "{publish-folder}"@ == publish_folder_marker(),
                forall|k: int| 0 <= k < i ==> (#[trigger] out@[k])@ == replaced(
                    self.config.process@[k]@,
                    publish_folder_marker(),
                    deploy@,
                ),
            decreases self.config.process.len() - i,
        {
            out.push(replace_all(self.config.process[i].as_str(), "{publish-folder}", deploy));
            i = i + 1;
        }
        out
    }
}

/// The placeholder for the deployment path in hook commands.
pub open spec fn publish_folder_marker() -> Seq<char> {
    seq!['{', 'p', 'u', 'b', 'l', 'i', 's', 'h', '-', 'f', 'o', 'l', 'd', 'e', 'r', '}']
}

} // verus!
