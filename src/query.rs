//! The values that a lookup takes in and hands back.

use vstd::prelude::*;

verus! {

/// What a caller asks for; any subset of the fields may be present.
#[derive(Debug, Clone)]
pub struct QueryPayload {
    pub product_id: Option<String>,
    pub price: Option<u64>,
    pub product_display_name: Option<String>,
    pub brand_name: Option<String>,
}

/// An authoritative product record.
#[derive(Debug)]
pub struct Product {
    pub product_id: String,
    pub price: u64,
    pub product_display_name: String,
    pub brand_name: String,
}

impl Clone for Product {
    fn clone(&self) -> (r: Self)
        ensures
            r == *self,
    {
        Product {
            product_id: self.product_id.clone(),
            price: self.price,
            product_display_name: self.product_display_name.clone(),
            brand_name: self.brand_name.clone(),
        }
    }
}

/// The body of a successful answer.
pub struct QueryBody {
    pub data: Vec<Product>,
}

impl QueryBody {
    pub fn new(result: Vec<Product>) -> (r: Self)
        ensures
            r.data == result,
    {
        Self { data: result }
    }
}

/// Why a lookup produced no records.
#[derive(Debug, Clone, Copy, PartialEq, Eq, Structural)]
pub enum AppError {
    /// The payload names neither an identifier nor a display-name fragment.
    InvalidQuery,
    /// The lookup ran and matched no record.
    DataNotFound,
    /// Key derivation, the cache store or the record store failed.
    InternalServerError,
}

impl AppError {
    /// The HTTP status under which the error is reported.
    pub fn status_code(&self) -> (r: u16)
        ensures
            r == match self {
                AppError::InvalidQuery => 400u16,
                AppError::DataNotFound => 400u16,
                AppError::InternalServerError => 500u16,
            },
    {
        match self {
            AppError::InvalidQuery => 400,
            AppError::DataNotFound => 400,
            AppError::InternalServerError => 500,
        }
    }

    /// The message reported beside the status.
    pub fn message(&self) -> (r: &'static str)
        ensures
            r@ == match self {
                AppError::InvalidQuery => "Invalid query"@,
                AppError::DataNotFound => "Data not found"@,
                AppError::InternalServerError => "Internal server error"@,
            },
    {
        match self {
            AppError::InvalidQuery => {
                proof {
                    reveal_strlit("Invalid query");
                }
                "Invalid query"
            },
            AppError::DataNotFound => {
                proof {
                    reveal_strlit("Data not found");
                }
                "Data not found"
            },
            AppError::InternalServerError => {
                proof {
                    reveal_strlit("Internal server error");
                }
                "Internal server error"
            },
        }
    }
}

} // verus!
