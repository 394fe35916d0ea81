//! What a service of the game needs to know.

use vstd::prelude::*;

use crate::config::{GameConfig, TurnsSection};
use crate::foglet::FogletContext;
use crate::turns::{DateProvider, LocalDate};

verus! {

/// The configuration, the player and the date, borrowed for a call.
pub struct ServiceContext<'a, D: DateProvider + ?Sized> {
    pub config: &'a GameConfig,
    pub foglet: &'a FogletContext,
    pub date_provider: &'a D,
}

impl<'a, D: DateProvider + ?Sized> ServiceContext<'a, D> {
    pub fn new(config: &'a GameConfig, foglet: &'a FogletContext, date_provider: &'a D) -> (r: Self)
        ensures
            r.config == config,
            r.foglet == foglet,
            r.date_provider == date_provider,
    {
        ServiceContext { config, foglet, date_provider }
    }

    /// Today's date, as the date provider gives it.
    pub fn today(&self) -> (r: LocalDate)
        ensures
            call_ensures(D::today, (self.date_provider,), r),
    {
        self.date_provider.today()
    }

    /// The rules on turns, if the game has any.
    pub fn turns(&self) -> (r: Option<&'a TurnsSection>)
        ensures
            match r {
                Some(turns) => self.config.turns == Some(*turns),
                None => self.config.turns is None,
            },
    {
        match &self.config.turns {
            Some(turns) => Some(turns),
            None => None,
        }
    }
}

} // verus!
