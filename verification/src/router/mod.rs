pub mod model_router;
