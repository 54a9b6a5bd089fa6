//! The screens of the explorer and the way between them: the current screen,
//! the trail of screens that led to it, and what a navigation message does.
use vstd::prelude::*;

use crate::text::{push_str, string_from_chars};

verus! {

/// The screens of the explorer.
#[derive(Clone, Copy, PartialEq, Eq, Structural)]
pub enum Screen {
    Main,
    Identity,
    GetIdentity,
    Contracts,
    GetContract,
    Wallet,
    AddWallet,
    Strategies,
    LoadStrategy,
    CreateStrategy,
    ConfirmStrategy,
    StrategyContracts,
    StrategyOperations,
    IdentityInserts,
    StartIdentities,
}

/// The name of a screen, as the trail shows it.
pub open spec fn screen_name(s: Screen) -> Seq<char> {
    match s {
        Screen::Main => "Main"@,
        Screen::Identity => "Identity"@,
        Screen::GetIdentity => "GetIdentity"@,
        Screen::Contracts => "Contracts"@,
        Screen::GetContract => "GetContract"@,
        Screen::Wallet => "Wallet"@,
        Screen::AddWallet => "AddWallet"@,
        Screen::Strategies => "Strategies"@,
        Screen::LoadStrategy => "LoadStrategy"@,
        Screen::CreateStrategy => "CreateStrategy"@,
        Screen::ConfirmStrategy => "ConfirmStrategy"@,
        Screen::StrategyContracts => "StrategyContracts"@,
        Screen::StrategyOperations => "StrategyOperations"@,
        Screen::IdentityInserts => "IdentityInserts"@,
        Screen::StartIdentities => "StartIdentities"@,
    }
}

fn screen_text(s: Screen) -> (r: &'static str)
    ensures
        r@ == screen_name(s),
{
    match s {
        Screen::Main => "Main",
        Screen::Identity => "Identity",
        Screen::GetIdentity => "GetIdentity",
        Screen::Contracts => "Contracts",
        Screen::GetContract => "GetContract",
        Screen::Wallet => "Wallet",
        Screen::AddWallet => "AddWallet",
        Screen::Strategies => "Strategies",
        Screen::LoadStrategy => "LoadStrategy",
        Screen::CreateStrategy => "CreateStrategy",
        Screen::ConfirmStrategy => "ConfirmStrategy",
        Screen::StrategyContracts => "StrategyContracts",
        Screen::StrategyOperations => "StrategyOperations",
        Screen::IdentityInserts => "IdentityInserts",
        Screen::StartIdentities => "StartIdentities",
    }
}

/// The trail text of screens: each name followed by ` / `.
pub open spec fn trail_text(screens: Seq<Screen>) -> Seq<char>
    decreases screens.len(),
{
    if screens.len() == 0 {
        Seq::empty()
    } else {
        trail_text(screens.drop_last()) + screen_name(screens.last()) + " / "@
    }
}

/// The messages that move between screens.
pub enum NavigationMessage {
    /// Go on to a screen.
    NextScreen(Screen),
    /// Go back to the screen before.
    PrevScreen,
    /// Draw the current screen again.
    ReloadScreen,
    /// Leave the explorer.
    AppClose,
}

/// Where the explorer is: the current screen and the screens before it.
pub struct Navigation {
    pub current_screen: Screen,
    pub breadcrumbs: Vec<Screen>,
    pub quit: bool,
}

/// Where the explorer is, as plain values.
pub struct NavigationView {
    pub current: Screen,
    pub trail: Seq<Screen>,
    pub quit: bool,
}

impl View for Navigation {
    type V = NavigationView;

    open spec fn view(&self) -> NavigationView {
        NavigationView { current: self.current_screen, trail: self.breadcrumbs@, quit: self.quit }
    }
}

/// Where the explorer is after going on to `screen`.
pub open spec fn after_next(v: NavigationView, screen: Screen) -> NavigationView {
    NavigationView { current: screen, trail: v.trail.push(v.current), quit: v.quit }
}

/// Where the explorer is after going back.
pub open spec fn after_prev(v: NavigationView) -> NavigationView {
    NavigationView { current: v.trail.last(), trail: v.trail.drop_last(), quit: v.quit }
}

impl Navigation {
    /// The explorer at its start: on the main screen, with nothing before it.
    pub fn new() -> (r: Self)
        ensures
            r@ == (NavigationView { current: Screen::Main, trail: Seq::empty(), quit: false }),
    {
        Navigation { current_screen: Screen::Main, breadcrumbs: Vec::new(), quit: false }
    }

    /// Goes on to `screen`; the current screen joins the trail.
    pub fn next_screen(&mut self, screen: Screen)
        ensures
            final(self)@ == after_next(old(self)@, screen),
    {
        self.breadcrumbs.push(self.current_screen);
        self.current_screen = screen;
    }

    /// Goes back to the last screen of the trail, which must not be empty (the
    /// main screen offers no way back).
    pub fn prev_screen(&mut self)
        requires
            old(self).breadcrumbs@.len() > 0,
        ensures
            final(self)@ == after_prev(old(self)@),
    {
        let screen = self.breadcrumbs.pop().unwrap();
        self.current_screen = screen;
    }

    /// Handles a navigation message and gives the screen to draw, if any; going
    /// back needs a screen to go back to.
    pub fn update(&mut self, message: NavigationMessage) -> (r: Option<Screen>)
        requires
            message is PrevScreen ==> old(self).breadcrumbs@.len() > 0,
        ensures
            match message {
                NavigationMessage::NextScreen(s) => {
                    &&& r == Some(s)
                    &&& final(self)@ == after_next(old(self)@, s)
                },
                NavigationMessage::PrevScreen => {
                    &&& r == Some(old(self).breadcrumbs@.last())
                    &&& final(self)@ == after_prev(old(self)@)
                },
                NavigationMessage::ReloadScreen => {
                    &&& r == Some(old(self).current_screen)
                    &&& final(self)@ == old(self)@
                },
                NavigationMessage::AppClose => {
                    &&& r is None
                    &&& final(self)@ == NavigationView { quit: true, ..old(self)@ }
                },
            },
    {
        match message {
            NavigationMessage::NextScreen(s) => {
                self.next_screen(s);
                Some(s)
            },
            NavigationMessage::PrevScreen => {
                self.prev_screen();
                Some(self.current_screen)
            },
            NavigationMessage::ReloadScreen => Some(self.current_screen),
            NavigationMessage::AppClose => {
                self.quit = true;
                None
            },
        }
    }

    /// The trail shown above the screen: the screens before and the current one,
    /// each followed by ` / `.
    pub fn breadcrumbs_text(&self) -> (r: String)
        ensures
            r@ == trail_text(self.breadcrumbs@.push(self.current_screen)),
    {
        let mut out: Vec<char> = Vec::new();
        let mut i: usize = 0;
        while i < self.breadcrumbs.len()
            invariant
                i <= self.breadcrumbs@.len(),
                out@ == trail_text(self.breadcrumbs@.take(i as int)),
            decreases self.breadcrumbs@.len() - i,
        {
            push_str(&mut out, screen_text(self.breadcrumbs[i]));
            push_str(&mut out, " / ");
            proof {
                let t = self.breadcrumbs@.take(i + 1);
                assert(t.drop_last() =~= self.breadcrumbs@.take(i as int));
            }
            i = i + 1;
        }
        push_str(&mut out, screen_text(self.current_screen));
        push_str(&mut out, " / ");
        proof {
            let all = self.breadcrumbs@.push(self.current_screen);
            assert(all.drop_last() =~= self.breadcrumbs@.take(i as int));
        }
        string_from_chars(&out)
    }
}

} // verus!
