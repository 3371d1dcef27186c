pub mod voter;
