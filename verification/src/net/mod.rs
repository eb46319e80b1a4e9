//! Weather conditions, places and readings, and the text handling around the web services.
pub mod geocode;
pub mod geolocation;
pub mod model;
pub mod weather;
