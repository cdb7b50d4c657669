//! Project scaffolding: the built-in templates and the files a freshly
//! created project starts with.
//!
//! Everything here is pure construction: the templates are fixed data, the
//! generated `pyproject.toml` is the fixed manifest text with the project's
//! name and dependency list filled in, and each builder's contract states
//! its output exactly.  Writing the files to disk is the driver's job.

use vstd::prelude::*;
use crate::protocol::str_eq;

verus! {

/// One file (or directory) of a project template.
#[derive(Clone, Debug)]
pub struct TemplateFile {
    pub path: String,
    pub content: String,
    pub is_directory: bool,
}

/// A ready-made project layout offered at project creation.
#[derive(Clone, Debug)]
pub struct ProjectTemplate {
    pub id: String,
    pub name: String,
    pub description: String,
    pub category: String,
    pub files: Vec<TemplateFile>,
    pub dependencies: Vec<String>,
}

/// `f` is exactly the given template file.
pub open spec fn file_is(
    f: TemplateFile,
    path: Seq<char>,
    content: Seq<char>,
    is_directory: bool,
) -> bool {
    &&& f.path@ == path
    &&& f.content@ == content
    &&& f.is_directory == is_directory
}

/// The metadata of `t` is exactly as given.
pub open spec fn template_meta_is(
    t: ProjectTemplate,
    id: Seq<char>,
    name: Seq<char>,
    description: Seq<char>,
    category: Seq<char>,
) -> bool {
    &&& t.id@ == id
    &&& t.name@ == name
    &&& t.description@ == description
    &&& t.category@ == category
}

/// The four built-in templates, field for field.
pub open spec fn builtin_templates_ok(r: Seq<ProjectTemplate>) -> bool {
    &&& r.len() == 4
    &&& template_meta_is(r[0], "basic"@, "Basic Python Project"@, "A simple Python project with main.py"@, "General"@)
    &&& r[0].files@.len() == 2
    &&& file_is(r[0].files@[0], "main.py"@, "#!/usr/bin/env python3
\"\"\"
Basic Python Project
\"\"\"

def main():
    print(\"Hello, World!\")
    print(\"Welcome to your new Python project!\")

if __name__ == \"__main__\":
    main()
"@, false)
    &&& file_is(r[0].files@[1], "README.md"@, "# Python Project

A basic Python project created with Pyra IDE.

## Getting Started

1. Install dependencies:
   ```bash
   uv sync
   ```

2. Run the project:
   ```bash
   uv run python main.py
   ```

## Project Structure

- `main.py` - Main application entry point
- `pyproject.toml` - Project configuration and dependencies
"@, false)
    &&& r[0].dependencies@.len() == 0
    &&& template_meta_is(r[1], "cli-app"@, "CLI Application"@, "Command-line application with argparse"@, "Applications"@)
    &&& r[1].files@.len() == 2
    &&& file_is(r[1].files@[0], "main.py"@, "#!/usr/bin/env python3
\"\"\"
CLI Application Template
\"\"\"

import argparse
import sys
from typing import Optional

def main() -> int:
    \"\"\"Main entry point for the CLI application.\"\"\"
    parser = argparse.ArgumentParser(
        description=\"CLI Application created with Pyra IDE\"
    )
    parser.add_argument(
        \"--version\", 
        action=\"version\", 
        version=\"%(prog)s 1.0.0\"
    )
    parser.add_argument(
        \"-v\", \"--verbose\",
        action=\"store_true\",
        help=\"Enable verbose output\"
    )
    parser.add_argument(
        \"command\",
        nargs=\"?\",
        default=\"hello\",
        help=\"Command to execute (default: hello)\"
    )
    
    args = parser.parse_args()
    
    if args.verbose:
        print(f\"Executing command: {args.command}\")
    
    if args.command == \"hello\":
        print(\"Hello from your CLI application!\")
        return 0
    else:
        print(f\"Unknown command: {args.command}\")
        return 1

if __name__ == \"__main__\":
    sys.exit(main())
"@, false)
    &&& file_is(r[1].files@[1], "README.md"@, "# CLI Application

A command-line application template created with Pyra IDE.

## Features

- Argument parsing with argparse
- Help documentation
- Version information
- Verbose output option

## Usage

```bash
# Show help
uv run python main.py --help

# Run with default command
uv run python main.py

# Run with verbose output
uv run python main.py -v hello

# Show version
uv run python main.py --version
```
"@, false)
    &&& r[1].dependencies@.len() == 0
    &&& template_meta_is(r[2], "web-api"@, "FastAPI Web API"@, "REST API with FastAPI framework"@, "Web"@)
    &&& r[2].files@.len() == 3
    &&& file_is(r[2].files@[0], "main.py"@, "\"\"
FastAPI Web API Template
\"\"\"

from fastapi import FastAPI, HTTPException
from pydantic import BaseModel
from typing import Dict, List, Optional
import uvicorn

app = FastAPI(
    title=\"My API\",
    description=\"A FastAPI application created with Pyra IDE\",
    version=\"1.0.0\"
)

# Data models
class Item(BaseModel):
    id: Optional[int] = None
    name: str
    description: Optional[str] = None
    price: float

class ItemCreate(BaseModel):
    name: str
    description: Optional[str] = None
    price: float

# In-memory storage (replace with database in production)
items_db: Dict[int, Item] = {}
next_id = 1

@app.get(\"/\")
async def root():
    \"\"\"Root endpoint.\"\"\"
    return {\"message\": \"Welcome to your FastAPI application!\"}

@app.get(\"/health\")
async def health_check():
    \"\"\"Health check endpoint.\"\"\"
    return {\"status\": \"healthy\"}

@app.get(\"/items\", response_model=List[Item])
async def get_items():
    \"\"\"Get all items.\"\"\"
    return list(items_db.values())

@app.get(\"/items/{item_id}\", response_model=Item)
async def get_item(item_id: int):
    \"\"\"Get a specific item by ID.\"\"\"
    if item_id not in items_db:
        raise HTTPException(status_code=404, detail=\"Item not found\")
    return items_db[item_id]

@app.post(\"/items\", response_model=Item)
async def create_item(item: ItemCreate):
    \"\"\"Create a new item.\"\"\"
    global next_id
    new_item = Item(id=next_id, **item.dict())
    items_db[next_id] = new_item
    next_id += 1
    return new_item

@app.put(\"/items/{item_id}\", response_model=Item)
async def update_item(item_id: int, item: ItemCreate):
    \"\"\"Update an existing item.\"\"\"
    if item_id not in items_db:
        raise HTTPException(status_code=404, detail=\"Item not found\")
    
    updated_item = Item(id=item_id, **item.dict())
    items_db[item_id] = updated_item
    return updated_item

@app.delete(\"/items/{item_id}\")
async def delete_item(item_id: int):
    \"\"\"Delete an item.\"\"\"
    if item_id not in items_db:
        raise HTTPException(status_code=404, detail=\"Item not found\")
    
    del items_db[item_id]
    return {\"message\": \"Item deleted successfully\"}

if __name__ == \"__main__\":
    uvicorn.run(app, host=\"0.0.0.0\", port=8000)
"@, false)
    &&& file_is(r[2].files@[1], "requirements.txt"@, "fastapi>=0.104.0
uvicorn[standard]>=0.24.0
pydantic>=2.4.0
"@, false)
    &&& file_is(r[2].files@[2], "README.md"@, "# FastAPI Web API

A REST API application built with FastAPI.

## Features

- RESTful API endpoints
- Automatic API documentation (Swagger UI)
- Request/response validation with Pydantic
- CRUD operations for items

## Getting Started

1. Install dependencies:
   ```bash
   uv sync
   ```

2. Run the server:
   ```bash
   uv run python main.py
   ```

3. Open your browser and visit:
   - API: http://localhost:8000
   - Interactive docs: http://localhost:8000/docs
   - Alternative docs: http://localhost:8000/redoc

## API Endpoints

- `GET /` - Root endpoint
- `GET /health` - Health check
- `GET /items` - Get all items
- `GET /items/{id}` - Get item by ID
- `POST /items` - Create new item
- `PUT /items/{id}` - Update item
- `DELETE /items/{id}` - Delete item
"@, false)
    &&& r[2].dependencies@.len() == 3
    &&& r[2].dependencies@[0]@ == "fastapi>=0.104.0"@
    &&& r[2].dependencies@[1]@ == "uvicorn[standard]>=0.24.0"@
    &&& r[2].dependencies@[2]@ == "pydantic>=2.4.0"@
    &&& template_meta_is(r[3], "data-analysis"@, "Data Analysis"@, "Data science project with pandas and matplotlib"@, "Data Science"@)
    &&& r[3].files@.len() == 6
    &&& file_is(r[3].files@[0], "data/"@, ""@, true)
    &&& file_is(r[3].files@[1], "notebooks/"@, ""@, true)
    &&& file_is(r[3].files@[2], "src/"@, ""@, true)
    &&& file_is(r[3].files@[3], "main.py"@, "\"\"
Data Analysis Project Template
\"\"\"

import pandas as pd
import matplotlib.pyplot as plt
import numpy as np
from pathlib import Path

def load_sample_data() -> pd.DataFrame:
    \"\"\"Create sample data for demonstration.\"\"\"
    np.random.seed(42)
    
    # Generate sample sales data
    dates = pd.date_range('2023-01-01', periods=365, freq='D')
    sales = np.random.normal(1000, 200, 365) + \\
            np.sin(np.arange(365) * 2 * np.pi / 7) * 100  # Weekly pattern
    
    data = pd.DataFrame({
        'date': dates,
        'sales': np.maximum(sales, 0),  # Ensure positive values
        'category': np.random.choice(['A', 'B', 'C'], 365),
        'region': np.random.choice(['North', 'South', 'East', 'West'], 365)
    })
    
    return data

def analyze_data(df: pd.DataFrame):
    \"\"\"Perform basic data analysis.\"\"\"
    print(\"📊 Data Analysis Results\")
    print(\"=\" * 50)
    
    # Basic statistics
    print(\"\\n📈 Sales Statistics:\")
    print(f\"Total Sales: ${df['sales'].sum():,.2f}\")
    print(f\"Average Daily Sales: ${df['sales'].mean():,.2f}\")
    print(f\"Median Daily Sales: ${df['sales'].median():,.2f}\")
    print(f\"Sales Standard Deviation: ${df['sales'].std():.2f}\")
    
    # Sales by category
    print(\"\\n📋 Sales by Category:\")
    category_sales = df.groupby('category')['sales'].sum().sort_values(ascending=False)
    for category, sales in category_sales.items():
        print(f\"  {category}: ${sales:,.2f}\")
    
    # Sales by region
    print(\"\\n🗺️ Sales by Region:\")
    region_sales = df.groupby('region')['sales'].sum().sort_values(ascending=False)
    for region, sales in region_sales.items():
        print(f\"  {region}: ${sales:,.2f}\")

def create_visualizations(df: pd.DataFrame):
    \"\"\"Create data visualizations.\"\"\"
    fig, axes = plt.subplots(2, 2, figsize=(15, 10))
    fig.suptitle('Sales Data Analysis', fontsize=16)
    
    # Time series plot
    axes[0, 0].plot(df['date'], df['sales'])
    axes[0, 0].set_title('Daily Sales Trend')
    axes[0, 0].set_xlabel('Date')
    axes[0, 0].set_ylabel('Sales ($)')
    axes[0, 0].tick_params(axis='x', rotation=45)
    
    # Sales by category
    category_sales = df.groupby('category')['sales'].sum()
    axes[0, 1].bar(category_sales.index, category_sales.values)
    axes[0, 1].set_title('Sales by Category')
    axes[0, 1].set_xlabel('Category')
    axes[0, 1].set_ylabel('Total Sales ($)')
    
    # Sales by region
    region_sales = df.groupby('region')['sales'].sum()
    axes[1, 0].pie(region_sales.values, labels=region_sales.index, autopct='%1.1f%%')
    axes[1, 0].set_title('Sales Distribution by Region')
    
    # Sales histogram
    axes[1, 1].hist(df['sales'], bins=30, edgecolor='black', alpha=0.7)
    axes[1, 1].set_title('Sales Distribution')
    axes[1, 1].set_xlabel('Sales ($)')
    axes[1, 1].set_ylabel('Frequency')
    
    plt.tight_layout()
    
    # Save the plot
    output_dir = Path('outputs')
    output_dir.mkdir(exist_ok=True)
    plt.savefig(output_dir / 'sales_analysis.png', dpi=300, bbox_inches='tight')
    print(f\"\\n📈 Visualizations saved to {output_dir / 'sales_analysis.png'}\")
    
    plt.show()

def main():
    \"\"\"Main analysis workflow.\"\"\"
    print(\"🐍 Data Analysis Project\")
    print(\"=\" * 50)
    
    # Load data
    print(\"\\n📊 Loading sample data...\")
    df = load_sample_data()
    print(f\"Loaded {len(df)} records\")
    
    # Analyze data
    analyze_data(df)
    
    # Create visualizations
    print(\"\\n📈 Creating visualizations...\")
    create_visualizations(df)
    
    # Save processed data
    output_dir = Path('outputs')
    output_dir.mkdir(exist_ok=True)
    df.to_csv(output_dir / 'processed_data.csv', index=False)
    print(f\"\\n💾 Processed data saved to {output_dir / 'processed_data.csv'}\")

if __name__ == \"__main__\":
    main()
"@, false)
    &&& file_is(r[3].files@[4], "requirements.txt"@, "pandas>=2.1.0
matplotlib>=3.7.0
numpy>=1.24.0
seaborn>=0.12.0
jupyter>=1.0.0
"@, false)
    &&& file_is(r[3].files@[5], "README.md"@, "# Data Analysis Project

A data science project template with pandas, matplotlib, and numpy.

## Features

- Sample data generation
- Statistical analysis
- Data visualizations
- CSV export functionality
- Organized project structure

## Project Structure

```
├── data/          # Raw data files
├── notebooks/     # Jupyter notebooks
├── src/          # Source code modules
├── outputs/      # Generated outputs
├── main.py       # Main analysis script
└── requirements.txt
```

## Getting Started

1. Install dependencies:
   ```bash
   uv sync
   ```

2. Run the analysis:
   ```bash
   uv run python main.py
   ```

3. Open Jupyter for interactive analysis:
   ```bash
   uv run jupyter notebook
   ```

## Features

- 📊 Statistical analysis
- 📈 Data visualizations
- 💾 Data export
- 🗂️ Organized structure
"@, false)
    &&& r[3].dependencies@.len() == 5
    &&& r[3].dependencies@[0]@ == "pandas>=2.1.0"@
    &&& r[3].dependencies@[1]@ == "matplotlib>=3.7.0"@
    &&& r[3].dependencies@[2]@ == "numpy>=1.24.0"@
    &&& r[3].dependencies@[3]@ == "seaborn>=0.12.0"@
    &&& r[3].dependencies@[4]@ == "jupyter>=1.0.0"@
}

/// The built-in project templates, in their fixed order.
pub fn get_builtin_templates() -> (r: Vec<ProjectTemplate>)
    ensures
        builtin_templates_ok(r@),
{
    let mut r: Vec<ProjectTemplate> = Vec::new();
    let mut files_0: Vec<TemplateFile> = Vec::new();
    files_0.push(TemplateFile {
        path: "main.py".to_owned(),
        content: "#!/usr/bin/env python3
\"\"\"
Basic Python Project
\"\"\"

def main():
    print(\"Hello, World!\")
    print(\"Welcome to your new Python project!\")

if __name__ == \"__main__\":
    main()
".to_owned(),
        is_directory: false,
    });
    files_0.push(TemplateFile {
        path: "README.md".to_owned(),
        content: "# Python Project

A basic Python project created with Pyra IDE.

## Getting Started

1. Install dependencies:
   ```bash
   uv sync
   ```

2. Run the project:
   ```bash
   uv run python main.py
   ```

## Project Structure

- `main.py` - Main application entry point
- `pyproject.toml` - Project configuration and dependencies
".to_owned(),
        is_directory: false,
    });
    let deps_0: Vec<String> = Vec::new();
    r.push(ProjectTemplate {
        id: "basic".to_owned(),
        name: "Basic Python Project".to_owned(),
        description: "A simple Python project with main.py".to_owned(),
        category: "General".to_owned(),
        files: files_0,
        dependencies: deps_0,
    });
    let mut files_1: Vec<TemplateFile> = Vec::new();
    files_1.push(TemplateFile {
        path: "main.py".to_owned(),
        content: "#!/usr/bin/env python3
\"\"\"
CLI Application Template
\"\"\"

import argparse
import sys
from typing import Optional

def main() -> int:
    \"\"\"Main entry point for the CLI application.\"\"\"
    parser = argparse.ArgumentParser(
        description=\"CLI Application created with Pyra IDE\"
    )
    parser.add_argument(
        \"--version\", 
        action=\"version\", 
        version=\"%(prog)s 1.0.0\"
    )
    parser.add_argument(
        \"-v\", \"--verbose\",
        action=\"store_true\",
        help=\"Enable verbose output\"
    )
    parser.add_argument(
        \"command\",
        nargs=\"?\",
        default=\"hello\",
        help=\"Command to execute (default: hello)\"
    )
    
    args = parser.parse_args()
    
    if args.verbose:
        print(f\"Executing command: {args.command}\")
    
    if args.command == \"hello\":
        print(\"Hello from your CLI application!\")
        return 0
    else:
        print(f\"Unknown command: {args.command}\")
        return 1

if __name__ == \"__main__\":
    sys.exit(main())
".to_owned(),
        is_directory: false,
    });
    files_1.push(TemplateFile {
        path: "README.md".to_owned(),
        content: "# CLI Application

A command-line application template created with Pyra IDE.

## Features

- Argument parsing with argparse
- Help documentation
- Version information
- Verbose output option

## Usage

```bash
# Show help
uv run python main.py --help

# Run with default command
uv run python main.py

# Run with verbose output
uv run python main.py -v hello

# Show version
uv run python main.py --version
```
".to_owned(),
        is_directory: false,
    });
    let deps_1: Vec<String> = Vec::new();
    r.push(ProjectTemplate {
        id: "cli-app".to_owned(),
        name: "CLI Application".to_owned(),
        description: "Command-line application with argparse".to_owned(),
        category: "Applications".to_owned(),
        files: files_1,
        dependencies: deps_1,
    });
    let mut files_2: Vec<TemplateFile> = Vec::new();
    files_2.push(TemplateFile {
        path: "main.py".to_owned(),
        content: "\"\"
FastAPI Web API Template
\"\"\"

from fastapi import FastAPI, HTTPException
from pydantic import BaseModel
from typing import Dict, List, Optional
import uvicorn

app = FastAPI(
    title=\"My API\",
    description=\"A FastAPI application created with Pyra IDE\",
    version=\"1.0.0\"
)

# Data models
class Item(BaseModel):
    id: Optional[int] = None
    name: str
    description: Optional[str] = None
    price: float

class ItemCreate(BaseModel):
    name: str
    description: Optional[str] = None
    price: float

# In-memory storage (replace with database in production)
items_db: Dict[int, Item] = {}
next_id = 1

@app.get(\"/\")
async def root():
    \"\"\"Root endpoint.\"\"\"
    return {\"message\": \"Welcome to your FastAPI application!\"}

@app.get(\"/health\")
async def health_check():
    \"\"\"Health check endpoint.\"\"\"
    return {\"status\": \"healthy\"}

@app.get(\"/items\", response_model=List[Item])
async def get_items():
    \"\"\"Get all items.\"\"\"
    return list(items_db.values())

@app.get(\"/items/{item_id}\", response_model=Item)
async def get_item(item_id: int):
    \"\"\"Get a specific item by ID.\"\"\"
    if item_id not in items_db:
        raise HTTPException(status_code=404, detail=\"Item not found\")
    return items_db[item_id]

@app.post(\"/items\", response_model=Item)
async def create_item(item: ItemCreate):
    \"\"\"Create a new item.\"\"\"
    global next_id
    new_item = Item(id=next_id, **item.dict())
    items_db[next_id] = new_item
    next_id += 1
    return new_item

@app.put(\"/items/{item_id}\", response_model=Item)
async def update_item(item_id: int, item: ItemCreate):
    \"\"\"Update an existing item.\"\"\"
    if item_id not in items_db:
        raise HTTPException(status_code=404, detail=\"Item not found\")
    
    updated_item = Item(id=item_id, **item.dict())
    items_db[item_id] = updated_item
    return updated_item

@app.delete(\"/items/{item_id}\")
async def delete_item(item_id: int):
    \"\"\"Delete an item.\"\"\"
    if item_id not in items_db:
        raise HTTPException(status_code=404, detail=\"Item not found\")
    
    del items_db[item_id]
    return {\"message\": \"Item deleted successfully\"}

if __name__ == \"__main__\":
    uvicorn.run(app, host=\"0.0.0.0\", port=8000)
".to_owned(),
        is_directory: false,
    });
    files_2.push(TemplateFile {
        path: "requirements.txt".to_owned(),
        content: "fastapi>=0.104.0
uvicorn[standard]>=0.24.0
pydantic>=2.4.0
".to_owned(),
        is_directory: false,
    });
    files_2.push(TemplateFile {
        path: "README.md".to_owned(),
        content: "# FastAPI Web API

A REST API application built with FastAPI.

## Features

- RESTful API endpoints
- Automatic API documentation (Swagger UI)
- Request/response validation with Pydantic
- CRUD operations for items

## Getting Started

1. Install dependencies:
   ```bash
   uv sync
   ```

2. Run the server:
   ```bash
   uv run python main.py
   ```

3. Open your browser and visit:
   - API: http://localhost:8000
   - Interactive docs: http://localhost:8000/docs
   - Alternative docs: http://localhost:8000/redoc

## API Endpoints

- `GET /` - Root endpoint
- `GET /health` - Health check
- `GET /items` - Get all items
- `GET /items/{id}` - Get item by ID
- `POST /items` - Create new item
- `PUT /items/{id}` - Update item
- `DELETE /items/{id}` - Delete item
".to_owned(),
        is_directory: false,
    });
    let mut deps_2: Vec<String> = Vec::new();
    deps_2.push("fastapi>=0.104.0".to_owned());
    deps_2.push("uvicorn[standard]>=0.24.0".to_owned());
    deps_2.push("pydantic>=2.4.0".to_owned());
    r.push(ProjectTemplate {
        id: "web-api".to_owned(),
        name: "FastAPI Web API".to_owned(),
        description: "REST API with FastAPI framework".to_owned(),
        category: "Web".to_owned(),
        files: files_2,
        dependencies: deps_2,
    });
    let mut files_3: Vec<TemplateFile> = Vec::new();
    files_3.push(TemplateFile {
        path: "data/".to_owned(),
        content: "".to_owned(),
        is_directory: true,
    });
    files_3.push(TemplateFile {
        path: "notebooks/".to_owned(),
        content: "".to_owned(),
        is_directory: true,
    });
    files_3.push(TemplateFile {
        path: "src/".to_owned(),
        content: "".to_owned(),
        is_directory: true,
    });
    files_3.push(TemplateFile {
        path: "main.py".to_owned(),
        content: "\"\"
Data Analysis Project Template
\"\"\"

import pandas as pd
import matplotlib.pyplot as plt
import numpy as np
from pathlib import Path

def load_sample_data() -> pd.DataFrame:
    \"\"\"Create sample data for demonstration.\"\"\"
    np.random.seed(42)
    
    # Generate sample sales data
    dates = pd.date_range('2023-01-01', periods=365, freq='D')
    sales = np.random.normal(1000, 200, 365) + \\
            np.sin(np.arange(365) * 2 * np.pi / 7) * 100  # Weekly pattern
    
    data = pd.DataFrame({
        'date': dates,
        'sales': np.maximum(sales, 0),  # Ensure positive values
        'category': np.random.choice(['A', 'B', 'C'], 365),
        'region': np.random.choice(['North', 'South', 'East', 'West'], 365)
    })
    
    return data

def analyze_data(df: pd.DataFrame):
    \"\"\"Perform basic data analysis.\"\"\"
    print(\"📊 Data Analysis Results\")
    print(\"=\" * 50)
    
    # Basic statistics
    print(\"\\n📈 Sales Statistics:\")
    print(f\"Total Sales: ${df['sales'].sum():,.2f}\")
    print(f\"Average Daily Sales: ${df['sales'].mean():,.2f}\")
    print(f\"Median Daily Sales: ${df['sales'].median():,.2f}\")
    print(f\"Sales Standard Deviation: ${df['sales'].std():.2f}\")
    
    # Sales by category
    print(\"\\n📋 Sales by Category:\")
    category_sales = df.groupby('category')['sales'].sum().sort_values(ascending=False)
    for category, sales in category_sales.items():
        print(f\"  {category}: ${sales:,.2f}\")
    
    # Sales by region
    print(\"\\n🗺️ Sales by Region:\")
    region_sales = df.groupby('region')['sales'].sum().sort_values(ascending=False)
    for region, sales in region_sales.items():
        print(f\"  {region}: ${sales:,.2f}\")

def create_visualizations(df: pd.DataFrame):
    \"\"\"Create data visualizations.\"\"\"
    fig, axes = plt.subplots(2, 2, figsize=(15, 10))
    fig.suptitle('Sales Data Analysis', fontsize=16)
    
    # Time series plot
    axes[0, 0].plot(df['date'], df['sales'])
    axes[0, 0].set_title('Daily Sales Trend')
    axes[0, 0].set_xlabel('Date')
    axes[0, 0].set_ylabel('Sales ($)')
    axes[0, 0].tick_params(axis='x', rotation=45)
    
    # Sales by category
    category_sales = df.groupby('category')['sales'].sum()
    axes[0, 1].bar(category_sales.index, category_sales.values)
    axes[0, 1].set_title('Sales by Category')
    axes[0, 1].set_xlabel('Category')
    axes[0, 1].set_ylabel('Total Sales ($)')
    
    # Sales by region
    region_sales = df.groupby('region')['sales'].sum()
    axes[1, 0].pie(region_sales.values, labels=region_sales.index, autopct='%1.1f%%')
    axes[1, 0].set_title('Sales Distribution by Region')
    
    # Sales histogram
    axes[1, 1].hist(df['sales'], bins=30, edgecolor='black', alpha=0.7)
    axes[1, 1].set_title('Sales Distribution')
    axes[1, 1].set_xlabel('Sales ($)')
    axes[1, 1].set_ylabel('Frequency')
    
    plt.tight_layout()
    
    # Save the plot
    output_dir = Path('outputs')
    output_dir.mkdir(exist_ok=True)
    plt.savefig(output_dir / 'sales_analysis.png', dpi=300, bbox_inches='tight')
    print(f\"\\n📈 Visualizations saved to {output_dir / 'sales_analysis.png'}\")
    
    plt.show()

def main():
    \"\"\"Main analysis workflow.\"\"\"
    print(\"🐍 Data Analysis Project\")
    print(\"=\" * 50)
    
    # Load data
    print(\"\\n📊 Loading sample data...\")
    df = load_sample_data()
    print(f\"Loaded {len(df)} records\")
    
    # Analyze data
    analyze_data(df)
    
    # Create visualizations
    print(\"\\n📈 Creating visualizations...\")
    create_visualizations(df)
    
    # Save processed data
    output_dir = Path('outputs')
    output_dir.mkdir(exist_ok=True)
    df.to_csv(output_dir / 'processed_data.csv', index=False)
    print(f\"\\n💾 Processed data saved to {output_dir / 'processed_data.csv'}\")

if __name__ == \"__main__\":
    main()
".to_owned(),
        is_directory: false,
    });
    files_3.push(TemplateFile {
        path: "requirements.txt".to_owned(),
        content: "pandas>=2.1.0
matplotlib>=3.7.0
numpy>=1.24.0
seaborn>=0.12.0
jupyter>=1.0.0
".to_owned(),
        is_directory: false,
    });
    files_3.push(TemplateFile {
        path: "README.md".to_owned(),
        content: "# Data Analysis Project

A data science project template with pandas, matplotlib, and numpy.

## Features

- Sample data generation
- Statistical analysis
- Data visualizations
- CSV export functionality
- Organized project structure

## Project Structure

```
├── data/          # Raw data files
├── notebooks/     # Jupyter notebooks
├── src/          # Source code modules
├── outputs/      # Generated outputs
├── main.py       # Main analysis script
└── requirements.txt
```

## Getting Started

1. Install dependencies:
   ```bash
   uv sync
   ```

2. Run the analysis:
   ```bash
   uv run python main.py
   ```

3. Open Jupyter for interactive analysis:
   ```bash
   uv run jupyter notebook
   ```

## Features

- 📊 Statistical analysis
- 📈 Data visualizations
- 💾 Data export
- 🗂️ Organized structure
".to_owned(),
        is_directory: false,
    });
    let mut deps_3: Vec<String> = Vec::new();
    deps_3.push("pandas>=2.1.0".to_owned());
    deps_3.push("matplotlib>=3.7.0".to_owned());
    deps_3.push("numpy>=1.24.0".to_owned());
    deps_3.push("seaborn>=0.12.0".to_owned());
    deps_3.push("jupyter>=1.0.0".to_owned());
    r.push(ProjectTemplate {
        id: "data-analysis".to_owned(),
        name: "Data Analysis".to_owned(),
        description: "Data science project with pandas and matplotlib".to_owned(),
        category: "Data Science".to_owned(),
        files: files_3,
        dependencies: deps_3,
    });
    proof {
        assert(builtin_templates_ok(r@));
    }
    r
}

/// The position of the template with the given id, if one exists.
pub fn find_template(templates: &Vec<ProjectTemplate>, id: &str) -> (r: Option<usize>)
    ensures
        match r {
            Some(i) => {
                &&& i < templates@.len()
                &&& templates@[i as int].id@ == id@
                &&& forall|j: int| 0 <= j < i ==> (#[trigger] templates@[j].id)@ != id@
            },
            None => forall|j: int|
                0 <= j < templates@.len() ==> (#[trigger] templates@[j].id)@ != id@,
        },
{
    let mut i: usize = 0;
    while i < templates.len()
        invariant
            i <= templates@.len(),
            forall|j: int| 0 <= j < i ==> (#[trigger] templates@[j].id)@ != id@,
        decreases templates@.len() - i,
    {
        if str_eq(templates[i].id.as_str(), id) {
            return Some(i);
        }
        i = i + 1;
    }
    None
}

/// A file a template may overwrite when the project directory already
/// exists: only the generated manifest and boilerplate are replaceable;
/// any other entry makes the directory off limits.
pub fn replaceable_scaffold_file(name: &str) -> (r: bool)
    ensures
        r == (name@ == "pyproject.toml"@ || name@ == ".gitignore"@ || name@ == "README.md"@
            || name@ == "requirements.txt"@),
{
    str_eq(name, "pyproject.toml") || str_eq(name, ".gitignore") || str_eq(name, "README.md")
        || str_eq(name, "requirements.txt")
}

/// The quoted dependency lines of a generated manifest, joined by commas.
pub open spec fn dep_lines(deps: Seq<String>) -> Seq<char>
    decreases deps.len(),
{
    if deps.len() == 0 {
        Seq::empty()
    } else if deps.len() == 1 {
        "    \""@ + deps[0]@ + "\""@
    } else {
        dep_lines(deps.drop_last()) + ",\n"@ + "    \""@ + deps.last()@ + "\""@
    }
}

/// The dependencies block of a generated manifest; absent when there are no
/// dependencies.
pub open spec fn deps_block(deps: Seq<String>) -> Seq<char> {
    if deps.len() == 0 {
        Seq::empty()
    } else {
        "dependencies = [\n"@ + dep_lines(deps) + "\n]"@
    }
}

/// The `pyproject.toml` written for a new project: the fixed manifest text
/// with the project's name and dependency list filled in.
pub open spec fn pyproject_toml_of(name: Seq<char>, deps: Seq<String>) -> Seq<char> {
    "[project]
name = \""@ + name + "\"
version = \"0.1.0\"
description = \"A Python project created with Pyra IDE\"
authors = [
    {name = \"Your Name\", email = \"your.email@example.com\"}
]
readme = \"README.md\"
license = {text = \"MIT\"}
requires-python = \">=3.9\"
"@ + deps_block(deps) + "

[build-system]
requires = [\"setuptools>=61.0\", \"wheel\"]
build-backend = \"setuptools.build_meta\"

[tool.ruff]
line-length = 88
target-version = \"py39\"

[tool.ruff.lint]
select = [
    \"E\",  # pycodestyle errors
    \"W\",  # pycodestyle warnings  
    \"F\",  # pyflakes
    \"I\",  # isort
    \"B\",  # flake8-bugbear
    \"C4\", # flake8-comprehensions
    \"UP\", # pyupgrade
]
ignore = []

[tool.ruff.format]
quote-style = \"double\"
indent-style = \"space\"
skip-magic-trailing-comma = false
line-ending = \"auto\"
"@
}

/// Render the manifest for a new project.
pub fn create_pyproject_toml(project_name: &str, dependencies: &Vec<String>) -> (r: String)
    ensures
        r@ == pyproject_toml_of(project_name@, dependencies@),
{
    let mut s = String::from_str("[project]
name = \"");
    s.append(project_name);
    s.append("\"
version = \"0.1.0\"
description = \"A Python project created with Pyra IDE\"
authors = [
    {name = \"Your Name\", email = \"your.email@example.com\"}
]
readme = \"README.md\"
license = {text = \"MIT\"}
requires-python = \">=3.9\"
");
    if dependencies.len() > 0 {
        s.append("dependencies = [\n");
        let ghost head = s@;
        let mut i: usize = 0;
        while i < dependencies.len()
            invariant
                i <= dependencies@.len(),
                dependencies@.len() > 0,
                i == 0 ==> s@ == head,
                i > 0 ==> s@ == head + dep_lines(dependencies@.take(i as int)),
            decreases dependencies@.len() - i,
        {
            if i > 0 {
                s.append(",\n");
            }
            s.append("    \"");
            s.append(dependencies[i].as_str());
            s.append("\"");
            i = i + 1;
            proof {
                let pre = dependencies@.take(i as int);
                assert(pre.drop_last() =~= dependencies@.take(i - 1));
                assert(pre.last() == dependencies@[i - 1]);
                assert(s@ =~= head + dep_lines(pre));
            }
        }
        proof {
            assert(dependencies@.take(dependencies@.len() as int) =~= dependencies@);
        }
        s.append("\n]");
    }
    s.append("

[build-system]
requires = [\"setuptools>=61.0\", \"wheel\"]
build-backend = \"setuptools.build_meta\"

[tool.ruff]
line-length = 88
target-version = \"py39\"

[tool.ruff.lint]
select = [
    \"E\",  # pycodestyle errors
    \"W\",  # pycodestyle warnings  
    \"F\",  # pyflakes
    \"I\",  # isort
    \"B\",  # flake8-bugbear
    \"C4\", # flake8-comprehensions
    \"UP\", # pyupgrade
]
ignore = []

[tool.ruff.format]
quote-style = \"double\"
indent-style = \"space\"
skip-magic-trailing-comma = false
line-ending = \"auto\"
");
    proof {
        assert(s@ =~= pyproject_toml_of(project_name@, dependencies@));
    }
    s
}

/// The `.gitignore` written for a new project.
pub fn create_gitignore() -> (r: &'static str)
    ensures
        r@ == "# Python
__pycache__/
*.py[cod]
*$py.class
*.so
.Python
build/
develop-eggs/
dist/
downloads/
eggs/
.eggs/
lib/
lib64/
parts/
sdist/
var/
wheels/
pip-wheel-metadata/
share/python-wheels/
*.egg-info/
.installed.cfg
*.egg
MANIFEST

# PyInstaller
*.manifest
*.spec

# Unit test / coverage reports
htmlcov/
.tox/
.nox/
.coverage
.coverage.*
.cache
nosetests.xml
coverage.xml
*.cover
*.py,cover
.hypothesis/
.pytest_cache/

# Virtual environments
.env
.venv
env/
venv/
ENV/
env.bak/
venv.bak/

# IDEs
.vscode/
.idea/
*.swp
*.swo
*~

# OS
.DS_Store
.DS_Store?
._*
.Spotlight-V100
.Trashes
ehthumbs.db
Thumbs.db

# Project specific
outputs/
logs/
*.log
"@,
{
    "# Python
__pycache__/
*.py[cod]
*$py.class
*.so
.Python
build/
develop-eggs/
dist/
downloads/
eggs/
.eggs/
lib/
lib64/
parts/
sdist/
var/
wheels/
pip-wheel-metadata/
share/python-wheels/
*.egg-info/
.installed.cfg
*.egg
MANIFEST

# PyInstaller
*.manifest
*.spec

# Unit test / coverage reports
htmlcov/
.tox/
.nox/
.coverage
.coverage.*
.cache
nosetests.xml
coverage.xml
*.cover
*.py,cover
.hypothesis/
.pytest_cache/

# Virtual environments
.env
.venv
env/
venv/
ENV/
env.bak/
venv.bak/

# IDEs
.vscode/
.idea/
*.swp
*.swo
*~

# OS
.DS_Store
.DS_Store?
._*
.Spotlight-V100
.Trashes
ehthumbs.db
Thumbs.db

# Project specific
outputs/
logs/
*.log
"
}

} // verus!
