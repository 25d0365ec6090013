//! What the two sidebars show.

use vstd::prelude::*;

verus! {

/// The pages of the left sidebar.
#[derive(Debug, Clone, Copy, PartialEq, Eq, Structural)]
pub enum SidebarPage {
    Stories,
    Settings,
}

impl Default for SidebarPage {
    /// The page that is open first.
    fn default() -> (page: Self)
        ensures
            page == SidebarPage::Stories,
    {
        SidebarPage::Stories
    }
}

impl SidebarPage {
    /// The heading of the page.
    pub fn as_str(&self) -> (name: &'static str)
        ensures
            name@ == (match self {
                SidebarPage::Stories => "Stories"@,
                SidebarPage::Settings => "Settings"@,
            }),
    {
        match self {
            SidebarPage::Stories => "Stories",
            SidebarPage::Settings => "Settings",
        }
    }
}

/// The pages of the right sidebar.
#[derive(Debug, Clone, Copy, PartialEq, Eq, Structural)]
pub enum RightSidebarPage {
    Text,
    Tree,
}

impl Default for RightSidebarPage {
    /// The page that is open first.
    fn default() -> (page: Self)
        ensures
            page == RightSidebarPage::Text,
    {
        RightSidebarPage::Text
    }
}

impl RightSidebarPage {
    /// The heading of the page.
    pub fn as_str(&self) -> (name: &'static str)
        ensures
            name@ == (match self {
                RightSidebarPage::Text => "Text"@,
                RightSidebarPage::Tree => "Tree"@,
            }),
    {
        match self {
            RightSidebarPage::Text => "Text",
            RightSidebarPage::Tree => "Tree",
        }
    }
}

/// The state of the right sidebar, which shows the story as text or as a
/// tree. The text is kept between frames and formatted again only when the
/// story has changed.
#[derive(Debug, Clone, PartialEq, Eq)]
pub struct RightSidebar {
    /// The story as text, as it was last formatted.
    pub text: Option<String>,
    /// Whether `text` still shows the story as it is.
    pub text_current: bool,
    pub visible: bool,
    /// Whether the text is shown as the model is prompted with it.
    pub model_view: bool,
    /// Whether the text is rendered as Markdown.
    pub markdown: bool,
    pub page: RightSidebarPage,
}

impl Default for RightSidebar {
    /// A hidden sidebar with nothing formatted yet.
    fn default() -> (sidebar: Self)
        ensures
            sidebar.text is None,
            !sidebar.text_current,
            !sidebar.visible,
            !sidebar.model_view,
            !sidebar.markdown,
            sidebar.page == RightSidebarPage::Text,
    {
        RightSidebar {
            text: None,
            text_current: false,
            visible: false,
            model_view: false,
            markdown: false,
            page: RightSidebarPage::Text,
        }
    }
}

impl RightSidebar {
    /// Marks the text as out of date, so that it is formatted again when
    /// it is next drawn.
    pub fn refresh_story(&mut self)
        ensures
            !final(self).text_current,
            final(self).text == old(self).text,
            final(self).visible == old(self).visible,
            final(self).model_view == old(self).model_view,
            final(self).markdown == old(self).markdown,
            final(self).page == old(self).page,
    {
        self.text_current = false;
    }

    /// Whether the authors and the title are part of the text: always,
    /// unless the text is shown as the model is prompted with it, where
    /// the settings decide.
    pub fn includes(&self, prompt_include_authors: bool, prompt_include_title: bool) -> (shown: (
        bool,
        bool,
    ))
        ensures
            shown.0 == (!self.model_view || prompt_include_authors),
            shown.1 == (!self.model_view || prompt_include_title),
    {
        if self.model_view {
            (prompt_include_authors, prompt_include_title)
        } else {
            (true, true)
        }
    }
}

} // verus!
