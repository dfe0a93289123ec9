//! Where yt-dlp takes sign-in cookies from, so age-gated or members-only videos work.

use vstd::prelude::*;

verus! {

/// A browser whose cookies yt-dlp can read.
#[derive(Clone, Copy, PartialEq, Eq, Structural, Debug)]
pub enum Browser {
    Brave,
    Chrome,
    Chromium,
    Edge,
    Firefox,
    Opera,
    Safari,
    Vivaldi,
    Whale,
}

/// All browsers, in display order.
pub open spec fn all_browsers() -> Seq<Browser> {
    seq![
        Browser::Brave,
        Browser::Chrome,
        Browser::Chromium,
        Browser::Edge,
        Browser::Firefox,
        Browser::Opera,
        Browser::Safari,
        Browser::Vivaldi,
        Browser::Whale,
    ]
}

impl Browser {
    /// All browsers, in display order.
    pub fn all() -> (browsers: Vec<Browser>)
        ensures
            browsers@ == all_browsers(),
    {
        let browsers = vec![
            Browser::Brave,
            Browser::Chrome,
            Browser::Chromium,
            Browser::Edge,
            Browser::Firefox,
            Browser::Opera,
            Browser::Safari,
            Browser::Vivaldi,
            Browser::Whale,
        ];
        assert(browsers@ == all_browsers());
        browsers
    }

    /// What the menu calls it.
    pub fn label(self) -> (label: &'static str)
        ensures
            label@ == (match self {
                Browser::Brave => "Brave"@,
                Browser::Chrome => "Chrome"@,
                Browser::Chromium => "Chromium"@,
                Browser::Edge => "Edge"@,
                Browser::Firefox => "Firefox"@,
                Browser::Opera => "Opera"@,
                Browser::Safari => "Safari"@,
                Browser::Vivaldi => "Vivaldi"@,
                Browser::Whale => "Whale"@,
            }),
    {
        match self {
            Browser::Brave => "Brave",
            Browser::Chrome => "Chrome",
            Browser::Chromium => "Chromium",
            Browser::Edge => "Edge",
            Browser::Firefox => "Firefox",
            Browser::Opera => "Opera",
            Browser::Safari => "Safari",
            Browser::Vivaldi => "Vivaldi",
            Browser::Whale => "Whale",
        }
    }

    /// What yt-dlp calls it.
    pub open spec fn called(self) -> Seq<char> {
        match self {
            Browser::Brave => "brave"@,
            Browser::Chrome => "chrome"@,
            Browser::Chromium => "chromium"@,
            Browser::Edge => "edge"@,
            Browser::Firefox => "firefox"@,
            Browser::Opera => "opera"@,
            Browser::Safari => "safari"@,
            Browser::Vivaldi => "vivaldi"@,
            Browser::Whale => "whale"@,
        }
    }

    /// What yt-dlp calls it.
    pub fn name(self) -> (name: &'static str)
        ensures
            name@ == self.called(),
    {
        match self {
            Browser::Brave => "brave",
            Browser::Chrome => "chrome",
            Browser::Chromium => "chromium",
            Browser::Edge => "edge",
            Browser::Firefox => "firefox",
            Browser::Opera => "opera",
            Browser::Safari => "safari",
            Browser::Vivaldi => "vivaldi",
            Browser::Whale => "whale",
        }
    }
}

/// Where cookies come from. yt-dlp takes one source per run.
#[derive(Debug)]
pub enum CookieSource {
    /// A browser's live profile.
    Browser(Browser),
    /// An exported `cookies.txt`.
    File(String),
}

/// Where cookies come from, the file by its path.
pub enum CookieText {
    Browser(Browser),
    File(Seq<char>),
}

impl View for CookieSource {
    type V = CookieText;

    open spec fn view(&self) -> CookieText {
        match *self {
            CookieSource::Browser(browser) => CookieText::Browser(browser),
            CookieSource::File(path) => CookieText::File(path@),
        }
    }
}

/// The chosen source, where there is one.
pub open spec fn chosen(source: Option<CookieSource>) -> Option<CookieText> {
    match source {
        Some(source) => Some(source@),
        None => None,
    }
}

/// A copy of the chosen source.
pub fn copied(source: &Option<CookieSource>) -> (copy: Option<CookieSource>)
    ensures
        chosen(copy) == chosen(*source),
{
    match source {
        Some(CookieSource::Browser(browser)) => Some(CookieSource::Browser(*browser)),
        Some(CookieSource::File(path)) => Some(CookieSource::File(path.clone())),
        None => None,
    }
}

/// Every browser is in the menu once, and no two go by one name.
pub proof fn law_browsers_are_told_apart(a: Browser, b: Browser)
    ensures
        all_browsers().contains(a),
        all_browsers().no_duplicates(),
        a.called() == b.called() ==> a == b,
{
    let all = all_browsers();
    assert(all[0] is Brave && all[1] is Chrome && all[2] is Chromium && all[3] is Edge);
    assert(all[4] is Firefox && all[5] is Opera && all[6] is Safari && all[7] is Vivaldi);
    assert(all[8] is Whale);
    assert(all.contains(a));
    reveal_strlit("brave");
    reveal_strlit("chrome");
    reveal_strlit("chromium");
    reveal_strlit("edge");
    reveal_strlit("firefox");
    reveal_strlit("opera");
    reveal_strlit("safari");
    reveal_strlit("vivaldi");
    reveal_strlit("whale");
    assert(a.called().len() == b.called().len() && a.called()[0] == b.called()[0] ==> a == b);
}

/// A choice of cookies is told by what was chosen, the browser or the file's path.
pub proof fn law_choice_is_what_was_chosen(source: Option<CookieSource>)
    ensures
        chosen(source) is Some <==> source is Some,
        source matches Some(CookieSource::Browser(browser)) ==> chosen(source) == Some(
            CookieText::Browser(browser),
        ),
        source matches Some(CookieSource::File(path)) ==> chosen(source) == Some(
            CookieText::File(path@),
        ),
{
}

} // verus!
