//! Markdown front end: line tokenizer and header tree builder.

pub mod md_token;
pub mod token_tree;
pub mod token_tree_factory;

pub use md_token::Header;
pub use md_token::MdContent;
pub use md_token::MdToken;
pub use md_token::Table;
pub use md_token::TableRow;
pub use token_tree::TokenTree;
pub use token_tree_factory::TokenTreeFactory;
