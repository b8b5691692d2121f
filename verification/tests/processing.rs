use lib_ruby_parser::nodes as ruby;
use lib_ruby_parser::traverse::visitor::Visitor;
use lib_ruby_parser::{Loc, Parser, ParserOptions};
use packs::nodes::{Casgn, Class, Const, Def, Kwargs, Module, Node, Pair, Send, Str, Sym};
use packs::constant_resolver::{constants_of, get_experimental_constant_resolver, Constant};
use packs::erb::{self, convert_erb_to_mangled_ruby, is_template};
use packs::experimental::{process_from_contents, ReferenceCollector};
use packs::processed_file::ProcessedFile;
use packs::references::{Definition, Reference};
use packs::span::{Location, Range, SourceIndex};

struct Flattener(Vec<Node>);

fn location(loc: &Loc) -> Location {
    Location { begin: loc.begin, end: loc.end }
}

fn boxed(node: &ruby::Node) -> Box<Node> {
    Box::new(tree(node))
}

fn optional(node: &Option<Box<ruby::Node>>) -> Option<Box<Node>> {
    node.as_ref().map(|inner| boxed(inner))
}

fn list(nodes: &[ruby::Node]) -> Vec<Node> {
    nodes.iter().map(tree).collect()
}

fn class(node: &ruby::Class) -> Node {
    Node::Class(Class {
        name: boxed(&node.name),
        superclass: optional(&node.superclass),
        body: optional(&node.body),
    })
}

fn module(node: &ruby::Module) -> Node {
    Node::Module(Module { name: boxed(&node.name), body: optional(&node.body) })
}

fn casgn(node: &ruby::Casgn) -> Node {
    Node::Casgn(Casgn {
        scope: optional(&node.scope),
        name: node.name.clone(),
        value: optional(&node.value),
        name_l: location(&node.name_l),
        expression_l: location(&node.expression_l),
    })
}

fn constant(node: &ruby::Const) -> Node {
    Node::Const(Const {
        scope: optional(&node.scope),
        name: node.name.clone(),
        expression_l: location(&node.expression_l),
    })
}

fn send(node: &ruby::Send) -> Node {
    Node::Send(Send {
        recv: optional(&node.recv),
        method_name: node.method_name.clone(),
        args: list(&node.args),
        expression_l: location(&node.expression_l),
    })
}

fn def(node: &ruby::Def) -> Node {
    Node::Def(Def { args: optional(&node.args), body: optional(&node.body) })
}

fn kwargs(node: &ruby::Kwargs) -> Node {
    Node::Kwargs(Kwargs { pairs: list(&node.pairs) })
}

fn pair(node: &ruby::Pair) -> Node {
    Node::Pair(Pair { key: boxed(&node.key), value: boxed(&node.value) })
}

fn sym(node: &ruby::Sym) -> Node {
    Node::Sym(Sym { name: node.name.to_string_lossy() })
}

fn string(node: &ruby::Str) -> Node {
    Node::Str(Str { value: node.value.to_string_lossy() })
}

fn tree(node: &ruby::Node) -> Node {
    match node {
        ruby::Node::Class(inner) => class(inner),
        ruby::Node::Module(inner) => module(inner),
        ruby::Node::Casgn(inner) => casgn(inner),
        ruby::Node::Const(inner) => constant(inner),
        ruby::Node::Cbase(_) => Node::Cbase,
        ruby::Node::Send(inner) => send(inner),
        ruby::Node::Def(inner) => def(inner),
        ruby::Node::Kwargs(inner) => kwargs(inner),
        ruby::Node::Pair(inner) => pair(inner),
        ruby::Node::Sym(inner) => sym(inner),
        ruby::Node::Str(inner) => string(inner),
        ruby::Node::Lvar(_) => Node::Lvar,
        ruby::Node::Ivar(_) => Node::Ivar,
        ruby::Node::Self_(_) => Node::Self_,
        other => {
            let mut flattener = Flattener(Vec::new());
            flattener.visit(other);
            Node::Other(flattener.0)
        }
    }
}

impl Visitor for Flattener {
    fn on_class(&mut self, node: &ruby::Class) {
        self.0.push(class(node));
    }

    fn on_module(&mut self, node: &ruby::Module) {
        self.0.push(module(node));
    }

    fn on_casgn(&mut self, node: &ruby::Casgn) {
        self.0.push(casgn(node));
    }

    fn on_const(&mut self, node: &ruby::Const) {
        self.0.push(constant(node));
    }

    fn on_cbase(&mut self, _node: &ruby::Cbase) {
        self.0.push(Node::Cbase);
    }

    fn on_send(&mut self, node: &ruby::Send) {
        self.0.push(send(node));
    }

    fn on_def(&mut self, node: &ruby::Def) {
        self.0.push(def(node));
    }

    fn on_kwargs(&mut self, node: &ruby::Kwargs) {
        self.0.push(kwargs(node));
    }

    fn on_pair(&mut self, node: &ruby::Pair) {
        self.0.push(pair(node));
    }

    fn on_sym(&mut self, node: &ruby::Sym) {
        self.0.push(sym(node));
    }

    fn on_str(&mut self, node: &ruby::Str) {
        self.0.push(string(node));
    }

    fn on_lvar(&mut self, _node: &ruby::Lvar) {
        self.0.push(Node::Lvar);
    }

    fn on_ivar(&mut self, _node: &ruby::Ivar) {
        self.0.push(Node::Ivar);
    }

    fn on_self_(&mut self, _node: &ruby::Self_) {
        self.0.push(Node::Self_);
    }
}

fn parse(contents: &str) -> Option<Node> {
    let options = ParserOptions { buffer_name: "".to_string(), ..Default::default() };
    let parser = Parser::new(contents.to_string(), options);
    parser.do_parse().ast.map(|ast| tree(&ast))
}

fn strings(items: &[&str]) -> Vec<String> {
    items.iter().map(|item| item.to_string()).collect()
}

fn process(contents: &str, path: &str) -> ProcessedFile {
    let ast = parse(contents);
    process_from_contents(contents, ast.as_ref(), path)
}

fn process_template(ruby_contents: &str, path: &str) -> ProcessedFile {
    let ast = parse(ruby_contents);
    erb::process_from_contents(ruby_contents, ast.as_ref(), path)
}

fn names(references: &[Reference]) -> Vec<String> {
    references.iter().map(|reference| reference.name.clone()).collect()
}

fn defined(definitions: &[Definition]) -> Vec<String> {
    definitions.iter().map(|definition| definition.fully_qualified_name.clone()).collect()
}

fn reference(name: &str, namespace_path: &[&str]) -> Reference {
    Reference {
        name: name.to_string(),
        namespace_path: strings(namespace_path),
        location: Range::default(),
    }
}

#[test]
fn file_that_does_not_parse_is_empty() {
    assert_eq!(
        process("class", "/app/foo.rb"),
        ProcessedFile {
            absolute_path: "/app/foo.rb".to_string(),
            unresolved_references: vec![],
            definitions: vec![],
        }
    );
}

#[test]
fn namespace_without_methods_defines_nothing() {
    let file = process("module Foo\n  class Bar\n    Baz\n  end\nend\n", "/app/foo/bar.rb");
    assert_eq!(file.absolute_path, "/app/foo/bar.rb");
    assert_eq!(file.definitions, vec![]);
    assert_eq!(
        file.unresolved_references,
        vec![Reference {
            name: "Baz".to_string(),
            namespace_path: strings(&["Foo", "Bar"]),
            location: Range { start_row: 3, start_col: 4, end_row: 3, end_col: 8 },
        }]
    );
}

#[test]
fn namespace_with_a_method_is_defined() {
    let file = process("module Foo\n  class Bar\n    def baz\n    end\n  end\nend\n", "/app/foo/bar.rb");
    assert_eq!(
        file.definitions,
        vec![Definition {
            fully_qualified_name: "::Foo::Bar".to_string(),
            location: Range { start_row: 2, start_col: 8, end_row: 2, end_col: 12 },
            namespace_path: strings(&["Foo", "Bar"]),
        }]
    );
    assert_eq!(file.unresolved_references, vec![]);
}

#[test]
fn method_of_the_outer_namespace_does_not_count_for_a_nested_one() {
    let file = process("class Foo\n  def foo\n  end\n  class Bar\n  end\nend\n", "/app/foo.rb");
    assert_eq!(defined(&file.definitions), strings(&["::Foo"]));
}

#[test]
fn method_of_a_nested_namespace_does_not_count_for_the_outer_one() {
    let file = process("class Foo\n  class Bar\n    def bar\n    end\n  end\nend\n", "/app/foo.rb");
    assert_eq!(defined(&file.definitions), strings(&["::Foo::Bar"]));
}

#[test]
fn nested_definitions_come_before_the_enclosing_one() {
    let file = process(
        "class Foo\n  class Bar\n    def bar\n    end\n  end\n  def foo\n  end\n  LIMIT = 1\nend\n",
        "/app/foo.rb",
    );
    assert_eq!(defined(&file.definitions), strings(&["::Foo::Bar", "::Foo::LIMIT", "::Foo"]));
}

#[test]
fn method_inside_a_block_counts_for_the_namespace() {
    let file = process("class Foo\n  included do\n    def foo\n    end\n  end\nend\n", "/app/foo.rb");
    assert_eq!(defined(&file.definitions), strings(&["::Foo"]));
}

#[test]
fn constant_assignments_are_always_defined() {
    let file = process("module Foo\n  BAR = Baz\nend\n", "/app/foo.rb");
    assert_eq!(
        file.definitions,
        vec![Definition {
            fully_qualified_name: "::Foo::BAR".to_string(),
            location: Range { start_row: 2, start_col: 2, end_row: 2, end_col: 6 },
            namespace_path: strings(&["Foo"]),
        }]
    );
    assert_eq!(names(&file.unresolved_references), strings(&["Baz"]));
}

#[test]
fn superclass_is_an_ordinary_reference() {
    let file = process("class Foo < Bar\n  Bar\n  def foo\n  end\nend\n", "/app/foo.rb");
    assert_eq!(names(&file.unresolved_references), strings(&["Bar", "Bar"]));
    assert_eq!(file.unresolved_references[0].namespace_path, strings(&[]));
    assert_eq!(file.unresolved_references[1].namespace_path, strings(&["Foo"]));
    assert_eq!(defined(&file.definitions), strings(&["::Foo"]));
}

#[test]
fn namespaces_called_like_the_reference_are_always_left_out() {
    let file = process("class Foo < Foo\n  Foo\nend\n", "/app/foo.rb");
    assert_eq!(names(&file.unresolved_references), strings(&["Foo", "Foo"]));
    assert_eq!(file.unresolved_references[1].namespace_path, strings(&[]));
}

#[test]
fn declarations_with_dynamic_names_are_passed_over() {
    let file = process("class foo::Bar\n  def x\n  end\n  Baz\nend\nmodule self::M\n  Qux\nend\n", "/app/foo.rb");
    assert_eq!(file.definitions, vec![]);
    assert_eq!(file.unresolved_references, vec![]);
}

#[test]
fn associations_are_references() {
    let file = process("class Foo\n  has_many :some_user_models\nend\n", "/app/foo.rb");
    assert_eq!(
        file.unresolved_references,
        vec![Reference {
            name: "SomeUserModel".to_string(),
            namespace_path: strings(&["Foo"]),
            location: Range { start_row: 2, start_col: 2, end_row: 2, end_col: 29 },
        }]
    );
}

#[test]
fn the_walk_leaves_no_namespace_open() {
    let contents = "module Foo\n  class Bar\n    def baz\n      Qux\n    end\n  end\nend\n";
    let mut collector = ReferenceCollector::new(SourceIndex::new(contents));
    collector.visit(&parse(contents).expect("the text should parse"));
    assert!(collector.current_namespaces.is_empty());
    assert!(!collector.behavioral_change_in_namespace);
    assert_eq!(names(&collector.references), strings(&["Qux"]));
}

#[test]
fn template_references_have_no_location() {
    let file = process_template("Foo::Bar.new\nlink_to Baz\n", "/app/views/index.html.erb");
    assert_eq!(
        file,
        ProcessedFile {
            absolute_path: "/app/views/index.html.erb".to_string(),
            unresolved_references: vec![reference("Foo::Bar", &[]), reference("Baz", &[])],
            definitions: vec![],
        }
    );
}

#[test]
fn template_defines_nothing() {
    let file = process_template("class Foo\n  def foo\n    Bar\n  end\nend\nBAZ = 1\n", "/app/views/a.erb");
    assert_eq!(file.definitions, vec![]);
    assert_eq!(file.unresolved_references, vec![reference("Bar", &["Foo"])]);
}

#[test]
fn template_that_does_not_parse_is_empty() {
    let file = process_template("if", "/app/views/a.erb");
    assert_eq!(file.unresolved_references, vec![]);
    assert_eq!(file.definitions, vec![]);
    assert_eq!(file.absolute_path, "/app/views/a.erb");
}

fn two_files() -> Vec<ProcessedFile> {
    vec![
        process("module Foo\n  class Bar\n    def bar\n    end\n  end\nend\n", "/app/foo/bar.rb"),
        process("class Baz\n  def baz\n    Foo::Bar\n  end\nend\n", "/app/baz.rb"),
    ]
}

#[test]
fn constants_of_processed_files_carry_the_path_of_their_file() {
    assert_eq!(
        constants_of(&two_files()),
        vec![
            Constant {
                fully_qualified_name: "::Foo::Bar".to_string(),
                absolute_path_of_definition: "/app/foo/bar.rb".to_string(),
                namespace_path: strings(&["Foo", "Bar"]),
            },
            Constant {
                fully_qualified_name: "::Baz".to_string(),
                absolute_path_of_definition: "/app/baz.rb".to_string(),
                namespace_path: strings(&["Baz"]),
            },
        ]
    );
}

#[test]
fn references_of_one_file_resolve_to_definitions_of_another() {
    let files = two_files();
    let resolver = get_experimental_constant_resolver(&files);
    let resolved = resolver.resolve(&files[1].unresolved_references[0]).expect("Foo::Bar is defined");
    assert_eq!(resolved.fully_qualified_name, "::Foo::Bar");
    assert_eq!(resolved.absolute_path_of_definition, "/app/foo/bar.rb");
}

#[test]
fn reference_to_an_unknown_constant_does_not_resolve() {
    let resolver = get_experimental_constant_resolver(&two_files());
    assert_eq!(resolver.resolve(&reference("Qux", &["Foo", "Bar"])), None);
    assert_eq!(resolver.resolve(&reference("::Bar", &["Foo"])), None);
    assert_eq!(resolver.resolve(&reference("Foo", &[])), None);
}

#[test]
fn reference_resolves_through_its_namespaces() {
    let resolver = get_experimental_constant_resolver(&two_files());
    let resolved = resolver.resolve(&reference("Bar", &["Foo", "Other"])).expect("Bar is found in Foo");
    assert_eq!(resolved.fully_qualified_name, "::Foo::Bar");
}

#[test]
fn bare_name_is_tried_before_the_namespaces() {
    let files = vec![
        process("class Bar\n  def a\n  end\nend\n", "/app/bar.rb"),
        process("module Foo\n  class Bar\n    def b\n    end\n  end\nend\n", "/app/foo/bar.rb"),
    ];
    let resolver = get_experimental_constant_resolver(&files);
    let resolved = resolver.resolve(&reference("Bar", &["Foo"])).expect("Bar is defined");
    assert_eq!(resolved.absolute_path_of_definition, "/app/bar.rb");
}

#[test]
fn last_definition_of_a_name_counts() {
    let files = vec![
        process("class Bar\n  def a\n  end\nend\n", "/app/bar.rb"),
        process("class Bar\n  def b\n  end\nend\n", "/lib/bar.rb"),
    ];
    let resolver = get_experimental_constant_resolver(&files);
    let resolved = resolver.resolve(&reference("::Bar", &[])).expect("Bar is defined");
    assert_eq!(resolved.absolute_path_of_definition, "/lib/bar.rb");
}

#[test]
fn code_of_a_template_is_the_code_of_its_tags() {
    assert_eq!(
        convert_erb_to_mangled_ruby("<%= Foo.bar %>\n<p><% if Baz %>x<% end -%></p>"),
        " Foo.bar \n if Baz \n end \n"
    );
}

#[test]
fn marks_at_the_opening_of_a_tag_are_no_code() {
    assert_eq!(convert_erb_to_mangled_ruby("<%=- Foo -%><%-Bar%><%=Baz%>"), " Foo \nBar\nBaz\n");
    assert_eq!(convert_erb_to_mangled_ruby("<%-= Foo %>"), "= Foo \n");
}

#[test]
fn template_without_tags_has_no_code() {
    assert_eq!(convert_erb_to_mangled_ruby("<p>Foo % > <b>-%></b></p>"), "");
    assert_eq!(convert_erb_to_mangled_ruby(""), "");
    assert_eq!(convert_erb_to_mangled_ruby("<"), "");
}

#[test]
fn tag_that_is_not_closed_runs_to_the_end() {
    assert_eq!(convert_erb_to_mangled_ruby("a<% Foo - 1 % 2"), " Foo - 1 % 2");
    assert_eq!(convert_erb_to_mangled_ruby("<%"), "");
    assert_eq!(convert_erb_to_mangled_ruby("<%="), "");
}

#[test]
fn dash_and_percent_inside_a_tag_are_code() {
    assert_eq!(convert_erb_to_mangled_ruby("<% a - b % c -%>é"), " a - b % c \n");
    assert_eq!(convert_erb_to_mangled_ruby("<%--%>"), "\n");
    assert_eq!(convert_erb_to_mangled_ruby("<%---%>"), "-\n");
}

#[test]
fn references_of_a_template_are_found_in_its_code() {
    let template = "<h1><%= Title.for(@page) %></h1>\n<% Item.all.each do |item| -%>\n  <%= render Row.new(item) %>\n<% end %>\n";
    let ruby_contents = convert_erb_to_mangled_ruby(template);
    let file = process_template(&ruby_contents, "/app/views/items/index.html.erb");
    assert_eq!(
        file.unresolved_references,
        vec![reference("Title", &[]), reference("Item", &[]), reference("Row", &[])]
    );
    assert_eq!(file.definitions, vec![]);
}

#[test]
fn templates_are_told_by_their_extension() {
    assert!(is_template("/app/views/index.html.erb"));
    assert!(is_template(".erb"));
    assert!(!is_template("/app/models/user.rb"));
    assert!(!is_template("/app/views/index.erb.html"));
    assert!(!is_template("erb"));
    assert!(!is_template("/app/views/index.ERB"));
    assert!(!is_template(""));
}
