# rprop

Propositional logic in Rust types. Atomic propositions are structs that only their own
crate can build, conjunctions (`&&`) are structs of their members, disjunctions (`||`)
are enums of their operands, and implications (`->`) are function types; negation `!A`
stands for `A -> Absurd`, in a claim too. A claim is an implication that the crate must prove with a
function marked `#[prove(Claim)]`, or it does not compile.

The library holds the logic of the macros that write these items, each proved against a
mathematical model of the tokens it reads and writes:

- `lexer`, `tokens`: reading macro input text into token trees and writing tokens back
  as text, with the spacing of `proc_macro2`.
- `derive`: the full language (`propose!`, `claim!`, `#[prove]`, `define_conjunction!`,
  `define_disjunction!`) with implication, negation and natural-number parameters
  (`At<N>`): parsing (`parse`), naming the parts (`lower`), the items of each part
  (`emit`), and the laws on the shape of parsed and named propositions (`shape`).
- `macros`: the framework language, whose propositions can also be introduced by
  `Sorry`.
- `rose`: the fact language of a compiler pipeline and `define_fact_set!`.
- `rprop`, `framework`, `props`, `lowering`: the traits that the items implement, the
  facts of the pipeline and its stages; the crate root re-exports the names that
  generated code refers to (`::rprop::Prop`, `::rprop::Absurd`, `::rprop::Nat`, ...).
- `site`: where in a macro's input a refusal lies (the declared name, or the entry of a
  fact set), so that the error can be reported there.

`app/` turns `proc_macro2` token streams into the library's text and its answers back
into tokens, or into compile errors placed at the token that the library's `site` names.
