//! A flipchart that an agent draws Mermaid diagrams on: the rules that decide
//! what gets drawn, the notes that accompany a drawing, and the deck of views.

pub mod check;
pub mod deck;
pub mod diagram;
pub mod flipchart;
pub mod graph;
pub mod honest_limit;
pub mod house_style;
pub mod lifecycle;
pub mod mermaid;
pub mod text;
