//! What a key press asks the surrounding program to do.
use vstd::prelude::*;

use crate::text::views;

verus! {

/// A request to the program that runs the package tools.
#[derive(Debug, Clone)]
pub enum Action {
    NoOp,
    Quit,
    RunUpdate(Vec<String>),
    RunRebuild(String),
    Uninstall(Vec<String>),
    UninstallWithDeps(Vec<String>),
    Reinstall(Vec<String>),
    ForceRebuild(Vec<String>),
    Install(Vec<String>),
}

/// An action with its package names and command as character sequences.
pub enum ActionView {
    NoOp,
    Quit,
    RunUpdate(Seq<Seq<char>>),
    RunRebuild(Seq<char>),
    Uninstall(Seq<Seq<char>>),
    UninstallWithDeps(Seq<Seq<char>>),
    Reinstall(Seq<Seq<char>>),
    ForceRebuild(Seq<Seq<char>>),
    Install(Seq<Seq<char>>),
}

impl View for Action {
    type V = ActionView;

    open spec fn view(&self) -> ActionView {
        match self {
            Action::NoOp => ActionView::NoOp,
            Action::Quit => ActionView::Quit,
            Action::RunUpdate(v) => ActionView::RunUpdate(views(v@)),
            Action::RunRebuild(c) => ActionView::RunRebuild(c@),
            Action::Uninstall(v) => ActionView::Uninstall(views(v@)),
            Action::UninstallWithDeps(v) => ActionView::UninstallWithDeps(views(v@)),
            Action::Reinstall(v) => ActionView::Reinstall(views(v@)),
            Action::ForceRebuild(v) => ActionView::ForceRebuild(views(v@)),
            Action::Install(v) => ActionView::Install(views(v@)),
        }
    }
}

} // verus!
