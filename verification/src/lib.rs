pub mod hsv;
