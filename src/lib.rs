//! Data model of the protocol between a thin UI client and the server that
//! drives its screen: identifiers, values, actions, reactions and the scene
//! graph, with the client-side rules for applying a reaction.

pub mod digits;
pub mod ident;
pub mod layout;
pub mod message;
pub mod page;
pub mod screen;
pub mod value;

pub use ident::Id;
pub use layout::{Bind, Container, Control, Footer, Layout, List, ListItem, Menu, MenuItem, Panel, Tab};
pub use message::{Action, Delta, Kind, Reaction, Scene};
pub use page::{Model, Page, Props};
pub use screen::{Applied, Screen};
pub use value::{Decimal, Value};
