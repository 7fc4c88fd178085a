//! What the code editor is set to: the language that it highlights and
//! whether its text can be changed.

use vstd::prelude::*;
use vstd::string::StringExecFns;

verus! {

/// The languages that the editor highlights.
#[derive(Debug, Clone, Copy, PartialEq, Eq, Structural)]
pub enum EditorLanguage {
    Json,
}

impl Default for EditorLanguage {
    fn default() -> (language: Self)
        ensures
            language == EditorLanguage::Json,
    {
        EditorLanguage::Json
    }
}

impl EditorLanguage {
    /// The name of the language, as the highlighter knows it.
    pub open spec fn spec_to_string(&self) -> Seq<char> {
        match self {
            EditorLanguage::Json => "json"@,
        }
    }

    /// The name of the language, as the highlighter knows it.
    pub fn to_string(&self) -> (name: String)
        ensures
            name@ == self.spec_to_string(),
    {
        match self {
            EditorLanguage::Json => String::from_str("json"),
        }
    }
}

/// The settings of one code editor.
pub struct CodeEditor {
    language: String,
    read_only: bool,
}

impl Default for CodeEditor {
    fn default() -> (editor: Self)
        ensures
            editor.spec_language() == EditorLanguage::Json.spec_to_string(),
            !editor.spec_read_only(),
    {
        Self { language: EditorLanguage::Json.to_string(), read_only: false }
    }
}

impl CodeEditor {
    /// The name of the language that is highlighted.
    pub closed spec fn spec_language(&self) -> Seq<char> {
        self.language@
    }

    /// The text cannot be changed.
    pub closed spec fn spec_read_only(&self) -> bool {
        self.read_only
    }

    /// The name of the language that is highlighted.
    pub fn language(&self) -> (language: &str)
        ensures
            language@ == self.spec_language(),
    {
        self.language.as_str()
    }

    /// Whether the text cannot be changed.
    pub fn read_only(&self) -> (read_only: bool)
        ensures
            read_only == self.spec_read_only(),
    {
        self.read_only
    }

    /// Sets the language that is highlighted.
    pub fn set_language(&mut self, language: EditorLanguage)
        ensures
            final(self).spec_language() == language.spec_to_string(),
            final(self).spec_read_only() == old(self).spec_read_only(),
    {
        self.language = language.to_string();
    }

    /// Sets whether the text cannot be changed.
    pub fn set_read_only(&mut self, read_only: bool)
        ensures
            final(self).spec_read_only() == read_only,
            final(self).spec_language() == old(self).spec_language(),
    {
        self.read_only = read_only;
    }
}

} // verus!
