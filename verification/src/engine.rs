pub mod kda;
