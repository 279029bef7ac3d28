pub mod text;
pub mod phon;
pub mod phon_data;
pub mod sca;
pub mod catalog;
pub mod lexicon;
pub mod gen;
pub mod grammar;
pub mod phonotactics;
pub mod spelling;
pub mod romanization;
pub mod typology;
pub mod ipa_chart;
pub mod order;
pub mod phonology;
pub mod config;
pub mod site;
pub mod evolve;
pub mod realize;
pub mod word_shape;
pub mod table_laws;
