pub mod text;
pub mod strmap;
pub mod hashing;
pub mod paths;
pub mod sources;
pub mod pattern;
pub mod swc;
pub mod compiler_config;
pub mod binary;
pub mod bundle;
pub mod nls;
pub mod transform;
pub mod worker;
pub mod oxc;
