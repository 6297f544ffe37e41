//! Main application state and logic for the explorer's terminal client.

use vstd::prelude::*;
use crate::ui::block_view::BlockView;

verus! {

/// Main application state.
#[derive(Debug, Default)]
pub struct App {
    /// Whether the application should quit
    pub should_quit: bool,
    /// The tick rate for the application, in milliseconds
    pub tick_rate: u64,
    /// The title of the application
    pub title: String,
    /// The latest block number
    pub latest_block: Option<u64>,
    /// Whether the application is connected to a node
    pub connected: bool,
    /// The name of the chain
    pub chain_name: String,
    /// The current block view
    pub current_block: Option<BlockView>,
}

impl App {
    /// Create a new instance of the application.
    pub fn new() -> (app: App)
        ensures
            !app.should_quit,
            app.tick_rate == 250u64,
            app.title@ == "Subspace Explorer"@,
            app.latest_block is None,
            !app.connected,
            app.chain_name@ == "Subspace"@,
            app.current_block is None,
    {
        App {
            should_quit: false,
            tick_rate: 250,
            title: "Subspace Explorer".to_owned(),
            latest_block: None,
            connected: false,
            chain_name: "Subspace".to_owned(),
            current_block: None,
        }
    }

    /// Handle the tick event.
    pub fn on_tick(&mut self)
        ensures
            *final(self) == *old(self),
    {
    }

    /// Ask the application to quit.
    pub fn quit(&mut self)
        ensures
            final(self).should_quit,
            final(self).tick_rate == old(self).tick_rate,
            final(self).title == old(self).title,
            final(self).latest_block == old(self).latest_block,
            final(self).connected == old(self).connected,
            final(self).chain_name == old(self).chain_name,
            final(self).current_block == old(self).current_block,
    {
        self.should_quit = true;
    }

    /// Get the current tick rate, in milliseconds.
    pub fn tick_rate(&self) -> (rate: u64)
        ensures
            rate == self.tick_rate,
    {
        self.tick_rate
    }

    /// Update the latest block number.
    pub fn update_latest_block(&mut self, block_number: u64)
        ensures
            final(self).latest_block == Some(block_number),
            final(self).should_quit == old(self).should_quit,
            final(self).tick_rate == old(self).tick_rate,
            final(self).title == old(self).title,
            final(self).connected == old(self).connected,
            final(self).chain_name == old(self).chain_name,
            final(self).current_block == old(self).current_block,
    {
        self.latest_block = Some(block_number);
    }

    /// Get the latest block number, or 0 when none has been seen yet.
    pub fn latest_block_number(&self) -> (n: u64)
        ensures
            n == if self.latest_block is Some { self.latest_block->0 } else { 0u64 },
    {
        match self.latest_block {
            Some(n) => n,
            None => 0,
        }
    }

    /// Get the application title.
    pub fn title(&self) -> (t: &str)
        ensures
            t@ == self.title@,
    {
        self.title.as_str()
    }

    /// Set the connection status.
    pub fn set_connected(&mut self, connected: bool)
        ensures
            final(self).connected == connected,
            final(self).should_quit == old(self).should_quit,
            final(self).tick_rate == old(self).tick_rate,
            final(self).title == old(self).title,
            final(self).latest_block == old(self).latest_block,
            final(self).chain_name == old(self).chain_name,
            final(self).current_block == old(self).current_block,
    {
        self.connected = connected;
    }

    /// Set the chain name.
    pub fn set_chain_name(&mut self, name: String)
        ensures
            final(self).chain_name == name,
            final(self).should_quit == old(self).should_quit,
            final(self).tick_rate == old(self).tick_rate,
            final(self).title == old(self).title,
            final(self).latest_block == old(self).latest_block,
            final(self).connected == old(self).connected,
            final(self).current_block == old(self).current_block,
    {
        self.chain_name = name;
    }

    /// Get the chain name.
    pub fn chain_name(&self) -> (name: &str)
        ensures
            name@ == self.chain_name@,
    {
        self.chain_name.as_str()
    }
}

} // verus!
