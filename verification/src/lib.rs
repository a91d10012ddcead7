//! Verified core of a Perl language-server runtime.
pub mod text;
pub mod regex_calls;
pub mod json;
pub mod capabilities;
pub mod initialize_reply;
pub mod lifecycle;
pub mod uri;
pub mod dispatch;
pub mod code_actions;
pub mod document;
pub mod rename;
pub mod completion;
pub mod completion_list;
pub mod document_links;
pub mod module_resolution;
pub mod builtins;
pub mod special_variables;
pub mod hover_text;
pub mod symbol_hover;
pub mod regex_hover;
pub mod diagnostics;
pub mod navigation;
pub mod definition;
pub mod completion_resolve;
pub mod signature_help;
pub mod moniker;
pub mod import_source;
pub mod diagnostic_json;
pub mod publish;
pub mod declaration;
pub mod code_action_assembly;
