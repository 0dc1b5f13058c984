//! The rules by which the frameworks are told that the library knows.

use crate::projects::framework_macro::{FrameworkRule, Probe};
use crate::text::texts;
use vstd::prelude::*;

verus! {

/// A sign of a framework, as texts.
pub enum ProbeView {
    FileExists(Seq<char>),
    FileContains { file: Seq<char>, needle: Seq<char> },
}

/// A rule, as texts.
pub struct RuleView {
    pub name: Seq<char>,
    pub files: Seq<Seq<char>>,
    pub directories: Seq<Seq<char>>,
    pub json_checks: Seq<(Seq<char>, Seq<char>)>,
    pub custom: Seq<ProbeView>,
}

impl View for Probe {
    type V = ProbeView;

    open spec fn view(&self) -> ProbeView {
        match self {
            Probe::FileExists(file) => ProbeView::FileExists(file@),
            Probe::FileContains { file, needle } => ProbeView::FileContains {
                file: file@,
                needle: needle@,
            },
        }
    }
}

/// The texts of a list of pairs.
pub open spec fn pair_texts(pairs: Seq<(String, String)>) -> Seq<(Seq<char>, Seq<char>)> {
    Seq::new(pairs.len(), |i: int| (pairs[i].0@, pairs[i].1@))
}

/// The signs of a list, as texts.
pub open spec fn probe_views(probes: Seq<Probe>) -> Seq<ProbeView> {
    Seq::new(probes.len(), |i: int| probes[i]@)
}

impl View for FrameworkRule {
    type V = RuleView;

    open spec fn view(&self) -> RuleView {
        RuleView {
            name: self.name@,
            files: texts(self.files@),
            directories: texts(self.directories@),
            json_checks: pair_texts(self.json_checks@),
            custom: probe_views(self.custom@),
        }
    }
}

/// The rules of a list, as texts.
pub open spec fn rule_views(rules: Seq<FrameworkRule>) -> Seq<RuleView> {
    Seq::new(rules.len(), |i: int| rules[i]@)
}

/// What tells Laravel: a composer.json that requires the framework.
pub open spec fn laravel() -> RuleView {
    RuleView {
        name: "Laravel"@,
        files: seq!["composer.json"@],
        directories: Seq::empty(),
        json_checks: seq![("composer.json"@, "require.laravel/framework"@)],
        custom: Seq::empty(),
    }
}

/// What tells Rails: a Gemfile, and Rails among the packages, in the Gemfile
/// or in the files of an application.
pub open spec fn rails() -> RuleView {
    RuleView {
        name: "Rails"@,
        files: seq!["Gemfile"@],
        directories: Seq::empty(),
        json_checks: seq![("package.json"@, "dependencies.rails"@), ("package.json"@, "devDependencies.rails"@)],
        custom: seq![
            ProbeView::FileContains { file: "Gemfile"@, needle: "gem 'rails'"@ },
            ProbeView::FileContains { file: "Gemfile"@, needle: "gem \"rails\""@ },
            ProbeView::FileExists("config/application.rb"@),
            ProbeView::FileExists("app/controllers"@),
            ProbeView::FileExists("config/routes.rb"@),
        ],
    }
}

/// What tells NextJS: a package.json, and the dependency or a configuration
/// file of the framework.
pub open spec fn next_js() -> RuleView {
    RuleView {
        name: "NextJS"@,
        files: seq!["package.json"@],
        directories: Seq::empty(),
        json_checks: seq![("package.json"@, "dependencies.next"@), ("package.json"@, "devDependencies.next"@)],
        custom: seq![
            ProbeView::FileExists("next.config.js"@),
            ProbeView::FileExists("next.config.mjs"@),
        ],
    }
}

/// What tells Vue: a package.json, and the dependency or a file of the
/// framework.
pub open spec fn vue() -> RuleView {
    RuleView {
        name: "Vue"@,
        files: seq!["package.json"@],
        directories: Seq::empty(),
        json_checks: seq![("package.json"@, "dependencies.vue"@), ("package.json"@, "devDependencies.vue"@)],
        custom: seq![
            ProbeView::FileExists("vue.config.js"@),
            ProbeView::FileExists("src/App.vue"@),
        ],
    }
}

/// What tells Svelte: a package.json, and the dependency or a file of the
/// framework.
pub open spec fn svelte() -> RuleView {
    RuleView {
        name: "Svelte"@,
        files: seq!["package.json"@],
        directories: Seq::empty(),
        json_checks: seq![("package.json"@, "dependencies.svelte"@), ("package.json"@, "devDependencies.svelte"@)],
        custom: seq![
            ProbeView::FileExists("svelte.config.js"@),
            ProbeView::FileExists("src/App.svelte"@),
        ],
    }
}

/// What tells Django: a management script, and Django among the
/// requirements or one of its settings files.
pub open spec fn django() -> RuleView {
    RuleView {
        name: "Django"@,
        files: seq!["manage.py"@],
        directories: Seq::empty(),
        json_checks: Seq::empty(),
        custom: seq![
            ProbeView::FileContains { file: "requirements.txt"@, needle: "Django"@ },
            ProbeView::FileContains { file: "requirements.txt"@, needle: "django"@ },
            ProbeView::FileExists("settings.py"@),
            ProbeView::FileExists("wsgi.py"@),
            ProbeView::FileExists("urls.py"@),
        ],
    }
}

/// What tells Flask: a Python project that requires Flask or has an application script.
pub open spec fn flask() -> RuleView {
    RuleView {
        name: "Flask"@,
        files: Seq::empty(),
        directories: Seq::empty(),
        json_checks: Seq::empty(),
        custom: seq![
            ProbeView::FileContains { file: "requirements.txt"@, needle: "Flask"@ },
            ProbeView::FileContains { file: "requirements.txt"@, needle: "flask"@ },
            ProbeView::FileExists("app.py"@),
            ProbeView::FileExists("main.py"@),
            ProbeView::FileExists("run.py"@),
        ],
    }
}

/// What tells Fiber: a Go module that requires the framework.
pub open spec fn fiber() -> RuleView {
    RuleView {
        name: "Fiber"@,
        files: seq!["go.mod"@],
        directories: Seq::empty(),
        json_checks: Seq::empty(),
        custom: seq![
            ProbeView::FileContains { file: "go.mod"@, needle: "github.com/gofiber/fiber"@ },
        ],
    }
}

/// What tells Ansible: a directory of playbooks, or one of the files of an inventory.
pub open spec fn ansible() -> RuleView {
    RuleView {
        name: "Ansible"@,
        files: Seq::empty(),
        directories: seq!["playbooks"@],
        json_checks: Seq::empty(),
        custom: seq![
            ProbeView::FileExists("ansible.cfg"@),
            ProbeView::FileExists("playbook.yml"@),
            ProbeView::FileExists("site.yml"@),
            ProbeView::FileExists("inventory"@),
            ProbeView::FileExists("hosts"@),
            ProbeView::FileExists("hosts.yml"@),
        ],
    }
}

/// The rules of the frameworks that the library knows, in the order in which
/// they are tried.
pub open spec fn builtin_table() -> Seq<RuleView> {
    seq![laravel(), rails(), next_js(), vue(), svelte(), django(), flask(), fiber(), ansible()]
}

/// The rule that tells Laravel.
pub fn laravel_rule() -> (rule: FrameworkRule)
    ensures
        rule@ == laravel(),
{
    let mut files: Vec<String> = Vec::new();
    files.push("composer.json".to_owned());
    let mut directories: Vec<String> = Vec::new();
    let mut json_checks: Vec<(String, String)> = Vec::new();
    json_checks.push(("composer.json".to_owned(), "require.laravel/framework".to_owned()));
    let mut custom: Vec<Probe> = Vec::new();
    proof {
        assert(texts(files@) =~= laravel().files);
        assert(texts(directories@) =~= laravel().directories);
        assert(pair_texts(json_checks@) =~= laravel().json_checks);
        assert(probe_views(custom@) =~= laravel().custom);
    }
    FrameworkRule { name: "Laravel".to_owned(), files, directories, json_checks, custom }
}

/// The rule that tells Rails.
pub fn rails_rule() -> (rule: FrameworkRule)
    ensures
        rule@ == rails(),
{
    let mut files: Vec<String> = Vec::new();
    files.push("Gemfile".to_owned());
    let mut directories: Vec<String> = Vec::new();
    let mut json_checks: Vec<(String, String)> = Vec::new();
    json_checks.push(("package.json".to_owned(), "dependencies.rails".to_owned()));
    json_checks.push(("package.json".to_owned(), "devDependencies.rails".to_owned()));
    let mut custom: Vec<Probe> = Vec::new();
    custom.push(Probe::FileContains { file: "Gemfile".to_owned(), needle: "gem 'rails'".to_owned() });
    custom.push(Probe::FileContains { file: "Gemfile".to_owned(), needle: "gem \"rails\"".to_owned() });
    custom.push(Probe::FileExists("config/application.rb".to_owned()));
    custom.push(Probe::FileExists("app/controllers".to_owned()));
    custom.push(Probe::FileExists("config/routes.rb".to_owned()));
    proof {
        assert(texts(files@) =~= rails().files);
        assert(texts(directories@) =~= rails().directories);
        assert(pair_texts(json_checks@) =~= rails().json_checks);
        assert(probe_views(custom@) =~= rails().custom);
    }
    FrameworkRule { name: "Rails".to_owned(), files, directories, json_checks, custom }
}

/// The rule that tells NextJS.
pub fn next_js_rule() -> (rule: FrameworkRule)
    ensures
        rule@ == next_js(),
{
    let mut files: Vec<String> = Vec::new();
    files.push("package.json".to_owned());
    let mut directories: Vec<String> = Vec::new();
    let mut json_checks: Vec<(String, String)> = Vec::new();
    json_checks.push(("package.json".to_owned(), "dependencies.next".to_owned()));
    json_checks.push(("package.json".to_owned(), "devDependencies.next".to_owned()));
    let mut custom: Vec<Probe> = Vec::new();
    custom.push(Probe::FileExists("next.config.js".to_owned()));
    custom.push(Probe::FileExists("next.config.mjs".to_owned()));
    proof {
        assert(texts(files@) =~= next_js().files);
        assert(texts(directories@) =~= next_js().directories);
        assert(pair_texts(json_checks@) =~= next_js().json_checks);
        assert(probe_views(custom@) =~= next_js().custom);
    }
    FrameworkRule { name: "NextJS".to_owned(), files, directories, json_checks, custom }
}

/// The rule that tells Vue.
pub fn vue_rule() -> (rule: FrameworkRule)
    ensures
        rule@ == vue(),
{
    let mut files: Vec<String> = Vec::new();
    files.push("package.json".to_owned());
    let mut directories: Vec<String> = Vec::new();
    let mut json_checks: Vec<(String, String)> = Vec::new();
    json_checks.push(("package.json".to_owned(), "dependencies.vue".to_owned()));
    json_checks.push(("package.json".to_owned(), "devDependencies.vue".to_owned()));
    let mut custom: Vec<Probe> = Vec::new();
    custom.push(Probe::FileExists("vue.config.js".to_owned()));
    custom.push(Probe::FileExists("src/App.vue".to_owned()));
    proof {
        assert(texts(files@) =~= vue().files);
        assert(texts(directories@) =~= vue().directories);
        assert(pair_texts(json_checks@) =~= vue().json_checks);
        assert(probe_views(custom@) =~= vue().custom);
    }
    FrameworkRule { name: "Vue".to_owned(), files, directories, json_checks, custom }
}

/// The rule that tells Svelte.
pub fn svelte_rule() -> (rule: FrameworkRule)
    ensures
        rule@ == svelte(),
{
    let mut files: Vec<String> = Vec::new();
    files.push("package.json".to_owned());
    let mut directories: Vec<String> = Vec::new();
    let mut json_checks: Vec<(String, String)> = Vec::new();
    json_checks.push(("package.json".to_owned(), "dependencies.svelte".to_owned()));
    json_checks.push(("package.json".to_owned(), "devDependencies.svelte".to_owned()));
    let mut custom: Vec<Probe> = Vec::new();
    custom.push(Probe::FileExists("svelte.config.js".to_owned()));
    custom.push(Probe::FileExists("src/App.svelte".to_owned()));
    proof {
        assert(texts(files@) =~= svelte().files);
        assert(texts(directories@) =~= svelte().directories);
        assert(pair_texts(json_checks@) =~= svelte().json_checks);
        assert(probe_views(custom@) =~= svelte().custom);
    }
    FrameworkRule { name: "Svelte".to_owned(), files, directories, json_checks, custom }
}

/// The rule that tells Django.
pub fn django_rule() -> (rule: FrameworkRule)
    ensures
        rule@ == django(),
{
    let mut files: Vec<String> = Vec::new();
    files.push("manage.py".to_owned());
    let mut directories: Vec<String> = Vec::new();
    let mut json_checks: Vec<(String, String)> = Vec::new();
    let mut custom: Vec<Probe> = Vec::new();
    custom.push(Probe::FileContains { file: "requirements.txt".to_owned(), needle: "Django".to_owned() });
    custom.push(Probe::FileContains { file: "requirements.txt".to_owned(), needle: "django".to_owned() });
    custom.push(Probe::FileExists("settings.py".to_owned()));
    custom.push(Probe::FileExists("wsgi.py".to_owned()));
    custom.push(Probe::FileExists("urls.py".to_owned()));
    proof {
        assert(texts(files@) =~= django().files);
        assert(texts(directories@) =~= django().directories);
        assert(pair_texts(json_checks@) =~= django().json_checks);
        assert(probe_views(custom@) =~= django().custom);
    }
    FrameworkRule { name: "Django".to_owned(), files, directories, json_checks, custom }
}

/// The rule that tells Flask.
pub fn flask_rule() -> (rule: FrameworkRule)
    ensures
        rule@ == flask(),
{
    let mut files: Vec<String> = Vec::new();
    let mut directories: Vec<String> = Vec::new();
    let mut json_checks: Vec<(String, String)> = Vec::new();
    let mut custom: Vec<Probe> = Vec::new();
    custom.push(Probe::FileContains { file: "requirements.txt".to_owned(), needle: "Flask".to_owned() });
    custom.push(Probe::FileContains { file: "requirements.txt".to_owned(), needle: "flask".to_owned() });
    custom.push(Probe::FileExists("app.py".to_owned()));
    custom.push(Probe::FileExists("main.py".to_owned()));
    custom.push(Probe::FileExists("run.py".to_owned()));
    proof {
        assert(texts(files@) =~= flask().files);
        assert(texts(directories@) =~= flask().directories);
        assert(pair_texts(json_checks@) =~= flask().json_checks);
        assert(probe_views(custom@) =~= flask().custom);
    }
    FrameworkRule { name: "Flask".to_owned(), files, directories, json_checks, custom }
}

/// The rule that tells Fiber.
pub fn fiber_rule() -> (rule: FrameworkRule)
    ensures
        rule@ == fiber(),
{
    let mut files: Vec<String> = Vec::new();
    files.push("go.mod".to_owned());
    let mut directories: Vec<String> = Vec::new();
    let mut json_checks: Vec<(String, String)> = Vec::new();
    let mut custom: Vec<Probe> = Vec::new();
    custom.push(Probe::FileContains { file: "go.mod".to_owned(), needle: "github.com/gofiber/fiber".to_owned() });
    proof {
        assert(texts(files@) =~= fiber().files);
        assert(texts(directories@) =~= fiber().directories);
        assert(pair_texts(json_checks@) =~= fiber().json_checks);
        assert(probe_views(custom@) =~= fiber().custom);
    }
    FrameworkRule { name: "Fiber".to_owned(), files, directories, json_checks, custom }
}

/// The rule that tells Ansible.
pub fn ansible_rule() -> (rule: FrameworkRule)
    ensures
        rule@ == ansible(),
{
    let mut files: Vec<String> = Vec::new();
    let mut directories: Vec<String> = Vec::new();
    directories.push("playbooks".to_owned());
    let mut json_checks: Vec<(String, String)> = Vec::new();
    let mut custom: Vec<Probe> = Vec::new();
    custom.push(Probe::FileExists("ansible.cfg".to_owned()));
    custom.push(Probe::FileExists("playbook.yml".to_owned()));
    custom.push(Probe::FileExists("site.yml".to_owned()));
    custom.push(Probe::FileExists("inventory".to_owned()));
    custom.push(Probe::FileExists("hosts".to_owned()));
    custom.push(Probe::FileExists("hosts.yml".to_owned()));
    proof {
        assert(texts(files@) =~= ansible().files);
        assert(texts(directories@) =~= ansible().directories);
        assert(pair_texts(json_checks@) =~= ansible().json_checks);
        assert(probe_views(custom@) =~= ansible().custom);
    }
    FrameworkRule { name: "Ansible".to_owned(), files, directories, json_checks, custom }
}

/// The rules of the frameworks that the library knows, in the order in which
/// they are tried.
pub fn builtin_rules() -> (rules: Vec<FrameworkRule>)
    ensures
        rule_views(rules@) == builtin_table(),
{
    let mut rules: Vec<FrameworkRule> = Vec::new();
    rules.push(laravel_rule());
    rules.push(rails_rule());
    rules.push(next_js_rule());
    rules.push(vue_rule());
    rules.push(svelte_rule());
    rules.push(django_rule());
    rules.push(flask_rule());
    rules.push(fiber_rule());
    rules.push(ansible_rule());
    proof {
        assert(rule_views(rules@) =~= builtin_table());
    }
    rules
}

} // verus!
