pub mod ysc_header_parser;
pub mod ysc_header_parser_factory;
pub mod ysc_parser;
