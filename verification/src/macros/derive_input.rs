//! What the code for a plan is generated from: a struct, with the marks of its fields.
use proc_macro2::{Spacing, TokenStream, TokenTree};
use quote::ToTokens;
use syn::punctuated::Punctuated;
use syn::token::Comma;
use syn::{AttrStyle, Data, DataStruct, Fields, Meta, NestedMeta};
use vstd::prelude::*;
use vstd::string::{StrSliceExecFns, StringExecFns};

verus! {

/// An argument of a mark.
pub enum AttributeArg {
    /// A path, as its tokens are printed.
    Path(String),
    /// Anything else.
    Unrelated,
}

/// A mark of a field.
pub struct Attribute {
    /// The name, where it is a single one.
    pub name: Option<String>,
    /// What follows the name.
    pub tokens: String,
}

/// A field of a plan.
pub struct Field {
    pub attrs: Vec<Attribute>,
}

/// What code is generated from.
pub enum DeriveInput {
    /// A struct with named fields.
    NamedStruct { fields: Vec<Field> },
    /// Another type.
    Unsupported,
}

/// What an `AttributeArg` holds.
pub enum AttributeArgView {
    Path(Seq<char>),
    Unrelated,
}

/// What an `Attribute` holds.
pub struct AttributeView {
    pub name: Option<Seq<char>>,
    pub tokens: Seq<char>,
}

/// What a `Field` holds.
pub struct FieldView {
    pub attrs: Seq<AttributeView>,
}

/// What a `DeriveInput` holds.
pub enum DeriveInputView {
    NamedStruct { fields: Seq<FieldView> },
    Unsupported,
}

/// A token of a text. A group is there with its brackets, which are known by their number among the
/// delimiters of `proc_macro2`: round ones, curly ones, square ones and none.
pub enum Token {
    Open(u8),
    Close(u8),
    Ident(String),
    /// A character, and whether the next token belongs to it.
    Punct(String, bool),
    Literal(String),
}

/// What a `Token` holds.
pub enum TokenView {
    Open(u8),
    Close(u8),
    Ident(Seq<char>),
    Punct(Seq<char>, bool),
    Literal(Seq<char>),
}

impl DeepView for Token {
    type V = TokenView;

    open spec fn deep_view(&self) -> TokenView {
        match self {
            Token::Open(d) => TokenView::Open(*d),
            Token::Close(d) => TokenView::Close(*d),
            Token::Ident(t) => TokenView::Ident(t@),
            Token::Punct(t, joint) => TokenView::Punct(t@, *joint),
            Token::Literal(t) => TokenView::Literal(t@),
        }
    }
}

impl DeepView for AttributeArg {
    type V = AttributeArgView;

    open spec fn deep_view(&self) -> AttributeArgView {
        match self {
            AttributeArg::Path(p) => AttributeArgView::Path(p@),
            AttributeArg::Unrelated => AttributeArgView::Unrelated,
        }
    }
}

impl DeepView for Attribute {
    type V = AttributeView;

    open spec fn deep_view(&self) -> AttributeView {
        AttributeView { name: self.name.deep_view(), tokens: self.tokens@ }
    }
}

impl DeepView for Field {
    type V = FieldView;

    open spec fn deep_view(&self) -> FieldView {
        FieldView { attrs: self.attrs.deep_view() }
    }
}

impl DeepView for DeriveInput {
    type V = DeriveInputView;

    open spec fn deep_view(&self) -> DeriveInputView {
        match self {
            DeriveInput::NamedStruct { fields } => DeriveInputView::NamedStruct {
                fields: fields.deep_view(),
            },
            DeriveInput::Unsupported => DeriveInputView::Unsupported,
        }
    }
}

/// An error of the parser.
#[verifier::external_type_specification]
#[verifier::external_body]
pub struct ExSynError(syn::Error);

/// An error of the lexer.
#[verifier::external_type_specification]
#[verifier::external_body]
pub struct ExLexError(proc_macro2::LexError);

/// A sequence of tokens, some of which are groups.
#[verifier::external_type_specification]
#[verifier::external_body]
pub struct ExTokenStream(TokenStream);

/// What a sequence of tokens consists of.
pub enum Tree {
    /// A group, with the number of its brackets.
    Group(u8, TokenStream),
    Ident(String),
    /// A character, and whether the next token belongs to it.
    Punct(String, bool),
    Literal(String),
}

/// The tokens in a sequence of tokens, in order, those in groups between their brackets.
pub uninterp spec fn tokens_in(stream: TokenStream) -> Seq<TokenView>;

/// The tokens that a part of a sequence stands for.
pub open spec fn tree_tokens(tree: Tree) -> Seq<TokenView> {
    match tree {
        Tree::Group(d, stream) => seq![TokenView::Open(d)] + tokens_in(stream) + seq![
            TokenView::Close(d),
        ],
        Tree::Ident(t) => seq![TokenView::Ident(t@)],
        Tree::Punct(t, joint) => seq![TokenView::Punct(t@, joint)],
        Tree::Literal(t) => seq![TokenView::Literal(t@)],
    }
}

/// The tokens that the first `n` parts of a sequence stand for.
pub open spec fn trees_tokens(trees: Seq<Tree>, n: nat) -> Seq<TokenView>
    decreases n,
{
    if n == 0 {
        Seq::empty()
    } else {
        trees_tokens(trees, (n - 1) as nat) + tree_tokens(trees[n - 1])
    }
}

/// A part of a sequence stands for no more tokens than the sequence.
proof fn lemma_part_is_shorter(trees: Seq<Tree>, i: nat, n: nat)
    requires
        i < n,
    ensures
        tree_tokens(trees[i as int]).len() <= trees_tokens(trees, n).len(),
    decreases n,
{
    if i + 1 < n {
        lemma_part_is_shorter(trees, i, (n - 1) as nat);
    }
}

/// The tokens in `text`, in order, if it is a sequence of tokens.
pub uninterp spec fn lexed(text: Seq<char>) -> Option<Seq<TokenView>>;

/// Whether the parser knows the literal. It does not know C strings, nor the mark that the compiler
/// leaves where a macro has failed, which the lexer both takes for literals.
pub open spec fn known_literal(literal: Seq<char>) -> bool {
    literal.len() > 0 && literal[0] != 'c' && literal[0] != '('
}

/// Whether the parser knows the token.
pub open spec fn known_token(token: TokenView) -> bool {
    match token {
        TokenView::Literal(literal) => known_literal(literal),
        _ => true,
    }
}

/// Whether the parser knows all the tokens.
pub open spec fn known_tokens(tokens: Seq<TokenView>) -> bool {
    forall|i: int| 0 <= i < tokens.len() ==> known_token(#[trigger] tokens[i])
}

/// Whether `text` is a sequence of tokens that the parser knows.
pub open spec fn parseable(text: Seq<char>) -> bool {
    lexed(text) is Some && known_tokens(lexed(text)->0)
}

/// How the opening bracket of a group is spelled.
pub open spec fn opening(delimiter: u8) -> Seq<char> {
    if delimiter == 0 {
        "("@
    } else if delimiter == 1 {
        "{"@
    } else if delimiter == 2 {
        "["@
    } else {
        ""@
    }
}

/// How the closing bracket of a group is spelled.
pub open spec fn closing(delimiter: u8) -> Seq<char> {
    if delimiter == 0 {
        ")"@
    } else if delimiter == 1 {
        "}"@
    } else if delimiter == 2 {
        "]"@
    } else {
        ""@
    }
}

/// How the token is spelled for the parser: a literal that it does not know as a zero.
pub open spec fn spelled(token: TokenView) -> Seq<char> {
    match token {
        TokenView::Open(d) => opening(d) + " "@,
        TokenView::Close(d) => closing(d) + " "@,
        TokenView::Ident(t) => t + " "@,
        TokenView::Punct(t, joint) => if joint {
            t
        } else {
            t + " "@
        },
        TokenView::Literal(literal) => (if known_literal(literal) {
            literal
        } else {
            "0"@
        }) + " "@,
    }
}

/// How the first `n` tokens are spelled for the parser.
pub open spec fn spelling(tokens: Seq<TokenView>, n: nat) -> Seq<char>
    decreases n,
{
    if n == 0 {
        Seq::empty()
    } else {
        spelling(tokens, (n - 1) as nat) + spelled(tokens[n - 1])
    }
}

/// What the parser reads in place of `text`: the text, unless it has literals that the parser does not
/// know; then the text with zeros in place of these. Where they stand among tokens that the parser
/// does not look into, such as those that follow the name of a mark, it makes no difference to it.
pub open spec fn readable(text: Seq<char>) -> Seq<char> {
    if lexed(text) is None || parseable(text) {
        text
    } else {
        spelling(lexed(text)->0, lexed(text)->0.len())
    }
}

/// The type definition that `text` is by the grammar of `syn`, if it is one.
pub uninterp spec fn parsed_input(text: Seq<char>) -> Option<DeriveInputView>;

/// The arguments that `tokens`, which follow the name of a mark, are by the grammar of `syn`, if
/// they are a list in brackets.
pub uninterp spec fn parsed_arguments(tokens: Seq<char>) -> Option<Seq<AttributeArgView>>;

/// Cuts `text` into tokens by `proc_macro2::TokenStream::from_str`. By `proc_macro2::fallback::force` the
/// lexer does not ask the compiler, so that the tokens are a function of the text alone. That they are
/// one is what is claimed, and that there is an error exactly where the text is no sequence of tokens.
#[verifier::external_body]
fn lex(text: &str) -> (r: Result<TokenStream, proc_macro2::LexError>)
    ensures
        match r {
            Ok(stream) => lexed(text@) == Some(tokens_in(stream)),
            Err(_) => lexed(text@) is None,
        },
{
    proc_macro2::fallback::force();
    text.parse::<TokenStream>()
}

/// Takes a sequence of tokens apart by `proc_macro2::TokenStream::into_iter`. The claim is that the
/// tokens in the sequence are those that its parts stand for, in order.
#[verifier::external_body]
fn take_apart(stream: TokenStream) -> (trees: Vec<Tree>)
    ensures
        trees_tokens(trees@, trees@.len()) == tokens_in(stream),
{
    let tree = |t: TokenTree| match t {
        TokenTree::Group(g) => Tree::Group(g.delimiter() as u8, g.stream()),
        TokenTree::Ident(i) => Tree::Ident(i.to_string()),
        TokenTree::Punct(p) => Tree::Punct(p.to_string(), p.spacing() == Spacing::Joint),
        TokenTree::Literal(l) => Tree::Literal(l.to_string()),
    };
    stream.into_iter().map(tree).collect()
}

/// Adds the tokens in `stream` to `tokens`.
fn flatten(stream: TokenStream, tokens: &mut Vec<Token>)
    ensures
        final(tokens).deep_view() == old(tokens).deep_view() + tokens_in(stream),
    decreases tokens_in(stream).len(),
{
    let ghost all = tokens_in(stream);
    let ghost before = tokens.deep_view();
    let trees = take_apart(stream);
    let ghost parts = trees@;
    assert(before + trees_tokens(parts, 0) =~= before);
    for tree in it: trees
        invariant
            it.seq() == parts,
            tokens.deep_view() == before + trees_tokens(parts, it.index() as nat),
            all == trees_tokens(parts, parts.len()),
            all == tokens_in(stream),
    {
        let ghost middle = tokens.deep_view();
        proof {
            lemma_part_is_shorter(parts, it.index() as nat, parts.len());
        }
        match tree {
            Tree::Group(d, inner) => {
                tokens.push(Token::Open(d));
                assert(tokens.deep_view() =~= middle.push(TokenView::Open(d)));
                flatten(inner, tokens);
                let ghost within = tokens.deep_view();
                tokens.push(Token::Close(d));
                assert(tokens.deep_view() =~= within.push(TokenView::Close(d)));
            },
            Tree::Ident(t) => tokens.push(Token::Ident(t)),
            Tree::Punct(t, joint) => tokens.push(Token::Punct(t, joint)),
            Tree::Literal(t) => tokens.push(Token::Literal(t)),
        }
        assert(tokens.deep_view() =~= middle + tree_tokens(parts[it.index() as int]));
    }
}

/// Whether the parser knows all the tokens.
fn all_known(tokens: &Vec<Token>) -> (b: bool)
    ensures
        b == known_tokens(tokens.deep_view()),
{
    let ghost view = tokens.deep_view();
    let mut i: usize = 0;
    while i < tokens.len()
        invariant
            i <= tokens@.len(),
            view == tokens.deep_view(),
            forall|j: int| 0 <= j < i ==> known_token(#[trigger] view[j]),
        decreases tokens@.len() - i,
    {
        assert(view[i as int] == tokens@[i as int].deep_view());
        match &tokens[i] {
            Token::Literal(literal) => {
                if !is_known_literal(literal.as_str()) {
                    assert(!known_token(view[i as int]));
                    return false;
                }
            },
            _ => {},
        }
        i += 1;
    }
    true
}

/// How the opening bracket of a group is spelled.
fn open_bracket(delimiter: u8) -> (text: &'static str)
    ensures
        text@ == opening(delimiter),
{
    match delimiter {
        0 => "(",
        1 => "{",
        2 => "[",
        _ => "",
    }
}

/// How the closing bracket of a group is spelled.
fn close_bracket(delimiter: u8) -> (text: &'static str)
    ensures
        text@ == closing(delimiter),
{
    match delimiter {
        0 => ")",
        1 => "}",
        2 => "]",
        _ => "",
    }
}

/// How the tokens are spelled for the parser.
fn spell(tokens: &Vec<Token>) -> (text: String)
    ensures
        text@ == spelling(tokens.deep_view(), tokens@.len()),
{
    let mut text = String::new();
    let mut i: usize = 0;
    while i < tokens.len()
        invariant
            i <= tokens@.len(),
            text@ == spelling(tokens.deep_view(), i as nat),
        decreases tokens@.len() - i,
    {
        let ghost before = text@;
        assert(tokens.deep_view()[i as int] == tokens@[i as int].deep_view());
        let joint = match &tokens[i] {
            Token::Open(d) => {
                text.append(open_bracket(*d));
                false
            },
            Token::Close(d) => {
                text.append(close_bracket(*d));
                false
            },
            Token::Ident(t) => {
                text.append(t.as_str());
                false
            },
            Token::Punct(t, joint) => {
                text.append(t.as_str());
                *joint
            },
            Token::Literal(t) => {
                if is_known_literal(t.as_str()) {
                    text.append(t.as_str());
                } else {
                    text.append("0");
                }
                false
            },
        };
        if !joint {
            text.append(" ");
        }
        assert(text@ =~= before + spelled(tokens.deep_view()[i as int]));
        i += 1;
    }
    text
}

/// Whether `text` can be handed to the parser.
pub fn is_parseable(text: &str) -> (b: bool)
    ensures
        b == parseable(text@),
{
    match lex(text) {
        Ok(stream) => {
            let mut tokens: Vec<Token> = Vec::new();
            flatten(stream, &mut tokens);
            all_known(&tokens)
        },
        Err(_) => false,
    }
}

/// What the parser reads in place of `text`.
pub fn make_readable(text: &str) -> (r: String)
    ensures
        r@ == readable(text@),
{
    match lex(text) {
        Ok(stream) => {
            let mut tokens: Vec<Token> = Vec::new();
            flatten(stream, &mut tokens);
            if all_known(&tokens) {
                String::from_str(text)
            } else {
                spell(&tokens)
            }
        },
        Err(_) => String::from_str(text),
    }
}

/// Whether the parser knows the literal.
pub fn is_known_literal(literal: &str) -> (b: bool)
    ensures
        b == known_literal(literal@),
{
    if literal.is_empty() {
        return false;
    }
    let first: char = literal.get_char(0);
    first != 'c' && first != '('
}

/// Parses a type definition by `syn::parse_str::<syn::DeriveInput>`, which panics on literals that
/// `syn::Lit::new` does not know. Of a struct with named fields it keeps the marks: the name by
/// `syn::Path::get_ident`, and what follows it as `proc_macro2::TokenStream` prints it. By
/// `proc_macro2::fallback::force` neither the parser nor the printer asks the compiler, so that the
/// result is a function of the text alone. That it is one is what is claimed, and that there is an
/// error exactly where the text is no type definition; the grammar is not stated.
#[verifier::external_body]
pub(crate) fn parse_derive_input(text: &str) -> (r: Result<DeriveInput, syn::Error>)
    requires
        parseable(text@),
    ensures
        match r {
            Ok(input) => parsed_input(text@) == Some(input.deep_view()),
            Err(_) => parsed_input(text@) is None,
        },
{
    proc_macro2::fallback::force();
    let input = syn::parse_str::<syn::DeriveInput>(text)?;
    let name = |a: &syn::Attribute| a.path.get_ident().map(|i| i.to_string());
    let attribute = |a: syn::Attribute| Attribute { name: name(&a), tokens: a.tokens.to_string() };
    let field = |f: syn::Field| Field { attrs: f.attrs.into_iter().map(attribute).collect() };
    Ok(match input.data {
        Data::Struct(DataStruct { fields: Fields::Named(named), .. }) => {
            DeriveInput::NamedStruct { fields: named.named.into_iter().map(field).collect() }
        }
        _ => DeriveInput::Unsupported,
    })
}

/// Parses what follows the name of a mark by `syn::Attribute::parse_args_with`, as a list of
/// `syn::NestedMeta` with commas between them. It panics on literals that `syn::Lit::new` does not
/// know. A path is kept as `proc_macro2::TokenStream` prints it. By `proc_macro2::fallback::force`
/// neither the parser nor the printer asks the compiler, so that the result is a function of the
/// text alone. That it is one is what is claimed, and that there is an error exactly where the text
/// is no such list; the grammar is not stated.
#[verifier::external_body]
pub(crate) fn parse_arguments(tokens: &str) -> (r: Result<Vec<AttributeArg>, syn::Error>)
    requires
        parseable(tokens@),
    ensures
        match r {
            Ok(args) => parsed_arguments(tokens@) == Some(args.deep_view()),
            Err(_) => parsed_arguments(tokens@) is None,
        },
{
    proc_macro2::fallback::force();
    let pound_token = Default::default();
    let bracket_token = Default::default();
    let path = syn::parse_str("mark")?;
    let tokens = tokens.parse::<TokenStream>()?;
    let a = syn::Attribute { pound_token, style: AttrStyle::Outer, bracket_token, path, tokens };
    let arg = |m: NestedMeta| match m {
        NestedMeta::Meta(Meta::Path(p)) => AttributeArg::Path(p.to_token_stream().to_string()),
        _ => AttributeArg::Unrelated,
    };
    let list = Punctuated::<NestedMeta, Comma>::parse_terminated;
    Ok(a.parse_args_with(list)?.into_iter().map(arg).collect())
}

} // verus!
