use packs::constant_resolver::{Constant, ConstantResolver};
use packs::references::Reference;
use packs::span::Range;
use packs::zeitwerk::{
    camelize, constant_below, get_zeitwerk_constant_resolver, infer_constant, infer_constants,
    AutoloadPath,
};

fn strings(items: &[&str]) -> Vec<String> {
    items.iter().map(|item| item.to_string()).collect()
}

fn root(directory: &str, namespace_prefix: &str) -> AutoloadPath {
    AutoloadPath {
        directory: directory.to_string(),
        namespace_prefix: namespace_prefix.to_string(),
    }
}

fn constant(name: &str, path: &str) -> Constant {
    Constant {
        fully_qualified_name: name.to_string(),
        absolute_path_of_definition: path.to_string(),
        namespace_path: vec![],
    }
}

fn reference(name: &str, namespace_path: &[&str]) -> Reference {
    Reference {
        name: name.to_string(),
        namespace_path: strings(namespace_path),
        location: Range::default(),
    }
}

#[test]
fn path_spells_the_constant() {
    assert_eq!(camelize("a/b/c"), "A::B::C");
    assert_eq!(camelize("admin/user_account"), "Admin::UserAccount");
    assert_eq!(camelize("foo"), "Foo");
    assert_eq!(camelize(""), "");
}

#[test]
fn only_small_latin_letters_are_capitalised() {
    assert_eq!(camelize("Foo/2fa_étude/_x"), "Foo::2faétude::X");
    assert_eq!(camelize("api_v2/z"), "ApiV2::Z");
}

#[test]
fn file_below_a_root_defines_the_constant_of_its_path() {
    assert_eq!(
        constant_below(&root("/root", "::"), "/root/a/b/c.rb"),
        Some(constant("::A::B::C", "/root/a/b/c.rb"))
    );
}

#[test]
fn root_of_a_namespace_prefixes_the_constant() {
    assert_eq!(
        constant_below(&root("/app/lib/admin", "::Admin::"), "/app/lib/admin/user_account.rb"),
        Some(constant("::Admin::UserAccount", "/app/lib/admin/user_account.rb"))
    );
}

#[test]
fn file_elsewhere_defines_nothing_below_a_root() {
    let models = root("/app/models", "::");
    assert_eq!(constant_below(&models, "/app/services/foo.rb"), None);
    assert_eq!(constant_below(&models, "/app/models_old/foo.rb"), None);
    assert_eq!(constant_below(&models, "/app/models"), None);
    assert_eq!(constant_below(&models, "/app/models/.rb"), None);
    assert_eq!(constant_below(&models, "/app/models/a.rb"), Some(constant("::A", "/app/models/a.rb")));
}

#[test]
fn file_that_is_no_ruby_file_defines_nothing() {
    let models = root("/app/models", "::");
    assert_eq!(constant_below(&models, "/app/models/foo.rake"), None);
    assert_eq!(constant_below(&models, "/app/models/foo"), None);
    assert_eq!(constant_below(&models, "/app/models/foo.rbs"), None);
}

#[test]
fn first_root_that_holds_the_file_decides() {
    let roots = vec![root("/app/models/concerns", "::"), root("/app/models", "::")];
    assert_eq!(
        infer_constant(&roots, "/app/models/concerns/nameable.rb"),
        Some(constant("::Nameable", "/app/models/concerns/nameable.rb"))
    );
    assert_eq!(
        infer_constant(&roots, "/app/models/user.rb"),
        Some(constant("::User", "/app/models/user.rb"))
    );
    assert_eq!(infer_constant(&roots, "/lib/user.rb"), None);
    assert_eq!(infer_constant(&vec![], "/lib/user.rb"), None);
}

#[test]
fn files_outside_every_root_are_left_out() {
    let roots = vec![root("/app/models", "::")];
    let files = strings(&["/app/models/user.rb", "/lib/tasks.rb", "/app/models/admin/role.rb"]);
    assert_eq!(
        infer_constants(&roots, &files),
        vec![
            constant("::User", "/app/models/user.rb"),
            constant("::Admin::Role", "/app/models/admin/role.rb"),
        ]
    );
}

fn resolver() -> ConstantResolver {
    let roots = vec![root("/app/models", "::"), root("/app/services", "::")];
    let files = strings(&[
        "/app/models/user.rb",
        "/app/models/admin/user.rb",
        "/app/services/admin/user.rb",
        "/app/services/billing/invoice_mailer.rb",
    ]);
    get_zeitwerk_constant_resolver(&roots, &files)
}

#[test]
fn reference_resolves_to_the_file_that_the_convention_names() {
    assert_eq!(
        resolver().resolve(&reference("InvoiceMailer", &["Billing"])),
        Some(constant("::Billing::InvoiceMailer", "/app/services/billing/invoice_mailer.rb"))
    );
    assert_eq!(
        resolver().resolve(&reference("::User", &["Admin"])),
        Some(constant("::User", "/app/models/user.rb"))
    );
}

#[test]
fn innermost_namespace_is_tried_first() {
    let files = strings(&["/app/models/a/c.rb", "/app/models/a/b/c.rb"]);
    let resolver = get_zeitwerk_constant_resolver(&vec![root("/app/models", "::")], &files);
    assert_eq!(
        resolver.resolve(&reference("C", &["A", "B"])),
        Some(constant("::A::B::C", "/app/models/a/b/c.rb"))
    );
    assert_eq!(
        resolver.resolve(&reference("C", &["A", "X"])),
        Some(constant("::A::C", "/app/models/a/c.rb"))
    );
}

#[test]
fn last_file_of_a_name_counts() {
    assert_eq!(
        resolver().resolve(&reference("User", &["Admin"])),
        Some(constant("::Admin::User", "/app/services/admin/user.rb"))
    );
}

#[test]
fn candidates_are_looked_up_as_they_stand() {
    assert_eq!(resolver().resolve(&reference("User", &[])), None);
    assert_eq!(resolver().resolve(&reference("User", &["Billing"])), None);
}

#[test]
fn reference_without_a_known_candidate_does_not_resolve() {
    assert_eq!(resolver().resolve(&reference("Missing", &["Admin", "Billing"])), None);
    assert_eq!(resolver().resolve(&reference("::Missing", &[])), None);
    let empty = ConstantResolver::new(&vec![], true);
    assert_eq!(empty.resolve(&reference("User", &["Admin"])), None);
}

#[test]
fn resolver_made_to_look_names_up_from_the_root_finds_bare_names() {
    let constants = vec![constant("::User", "/app/models/user.rb")];
    assert_eq!(
        ConstantResolver::new(&constants, true).resolve(&reference("User", &["Admin"])),
        Some(constant("::User", "/app/models/user.rb"))
    );
    assert_eq!(ConstantResolver::new(&constants, false).resolve(&reference("User", &["Admin"])), None);
}
