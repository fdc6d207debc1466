//! Step-by-step sorting and searching visualizers: the algorithm state
//! machines, the array collection they run on, and the menu and dialog
//! decisions around them.

pub mod enums;
pub mod sequences;
pub mod text;
pub mod colors;
pub mod dialog;
pub mod menu;
pub mod settings;
pub mod base_visualizer;
pub mod array_manager;
pub mod array_screens;
pub mod array_text;
pub mod runner;
pub mod helper;
pub mod insertion_sort;
pub mod quick_sort;
pub mod shell_sort;
pub mod heap_sort;
pub mod merge_sort;
pub mod radix_sort;
pub mod counting;
pub mod binary_search;
pub mod linear_search;
pub mod target_input;
pub mod laws;
