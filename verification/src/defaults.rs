//! Built-in default payloads: the documents seeded on first run and the
//! compiled-in language table and comment block.

use vstd::prelude::*;

verus! {

pub open spec fn default_shortcut_config_spec() -> Seq<char> {
    "language: auto\ncapslock_shortcut: '[{\"key\": \"capslock\", \"feature\": \"multifunctional\"}]'\n"@
}

/// The shortcut-rule document written on first run (below the comment block).
pub fn default_shortcut_config_text() -> (r: &'static str)
    ensures
        r@ == default_shortcut_config_spec(),
{
    "language: auto\ncapslock_shortcut: '[{\"key\": \"capslock\", \"feature\": \"multifunctional\"}]'\n"
}

pub open spec fn default_replace_text_spec() -> Seq<char> {
    "[Multifunctional]\ncolor=colour\n"@
}

/// The replacement-pairs document written on first run.
pub fn default_replace_text_text() -> (r: &'static str)
    ensures
        r@ == default_replace_text_spec(),
{
    "[Multifunctional]\ncolor=colour\n"
}

pub open spec fn language_table_spec() -> Seq<char> {
    "[Chinese]\nquit=\u{9000}\u{51fa}\nreload=\u{91cd}\u{65b0}\u{52a0}\u{8f7d}\n\n[English]\nquit=Quit\nreload=Reload\n\n[Japanese]\nquit=\u{7d42}\u{4e86}\nreload=\u{518d}\u{8aad}\u{307f}\u{8fbc}\u{307f}\n"@
}

/// The compiled-in menu-label table, one section per language.
pub fn language_table_text() -> (r: &'static str)
    ensures
        r@ == language_table_spec(),
{
    "[Chinese]\nquit=\u{9000}\u{51fa}\nreload=\u{91cd}\u{65b0}\u{52a0}\u{8f7d}\n\n[English]\nquit=Quit\nreload=Reload\n\n[Japanese]\nquit=\u{7d42}\u{4e86}\nreload=\u{518d}\u{8aad}\u{307f}\u{8fbc}\u{307f}\n"
}

pub open spec fn config_comment_source_spec() -> Seq<char> {
    "[Chinese]\n\u{5feb}\u{6377}\u{952e}\u{914d}\u{7f6e}\u{6587}\u{4ef6}\n\u{6bcf}\u{6761}\u{89c4}\u{5219}\u{5c06}\u{4e00}\u{4e2a}\u{6309}\u{952e}\u{7ed1}\u{5b9a}\u{5230}\u{4e00}\u{4e2a}\u{52a8}\u{4f5c}\n[English]\nShortcut configuration file\nEach rule binds one key combination to one action\n\n"@
}

/// The compiled-in source of the config-file comment block, one section per
/// language.
pub fn config_comment_source_text() -> (r: &'static str)
    ensures
        r@ == config_comment_source_spec(),
{
    "[Chinese]\n\u{5feb}\u{6377}\u{952e}\u{914d}\u{7f6e}\u{6587}\u{4ef6}\n\u{6bcf}\u{6761}\u{89c4}\u{5219}\u{5c06}\u{4e00}\u{4e2a}\u{6309}\u{952e}\u{7ed1}\u{5b9a}\u{5230}\u{4e00}\u{4e2a}\u{52a8}\u{4f5c}\n[English]\nShortcut configuration file\nEach rule binds one key combination to one action\n\n"
}

} // verus!
