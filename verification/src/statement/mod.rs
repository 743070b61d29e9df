pub mod prepared_statement;
